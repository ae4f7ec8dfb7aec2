//! The keyboard driver: one scan tick takes the decoded modifier and
//! character scan codes, classifies the layer slot and every character
//! against the key map and the session state, feeds the oracle, and returns
//! the reports of the tick. A tick with no active codes clears the state
//! and returns the single all-zero keyboard report.

use vstd::prelude::*;

use crate::input::KeyEvent;
use crate::input::Modify;
use crate::kbmap::KeyMap;
use crate::kbmap::KeyModel;
use crate::oracle::KbOracleReports;
use crate::oracle::KbOracleTicket;
use crate::oracle::LogEntryModel;
use crate::oracle::ReportModel;
use crate::oracle::report_model;
use crate::oracle::spec_generate_reports;
use crate::oracle::spec_record;
use crate::oracle::spec_remove;
use crate::oracle::spec_remove_layer;
use crate::state::KeyState;
use crate::state::pair_pressed;
use crate::state::pairs_without;

verus! {

/// The layer byte of a tick: the OR of the modifier scan codes the scanner
/// decoded. The defined codes are disjoint bits, so OR and addition agree.
pub open spec fn spec_layer_fold(codes: Seq<u8>) -> u8
    decreases codes.len(),
{
    if codes.len() == 0 {
        0
    } else {
        spec_layer_fold(codes.drop_last()) | codes.last()
    }
}

/// The state a tick works on: the oracle log, the ticket counter, and the
/// active pairs of the session.
pub ghost struct TickState {
    pub log: Seq<LogEntryModel>,
    pub ticket: KbOracleTicket,
    pub active: Seq<(u8, u8)>,
}

/// The tick state of a key state.
pub open spec fn tick_state_of(st: KeyState) -> TickState {
    TickState {
        log: st.oracle.log_model(),
        ticket: st.oracle.current_ticket,
        active: st.pressed_model(),
    }
}

/// The classification of the layer slot: `Some((true, k))` records the bare
/// key `k` of the layer, `Some((false, k))` removes it, `None` leaves the
/// log alone. The slot is recorded when it resolves and was not seen
/// pressed, removed when it resolves and was.
pub open spec fn spec_modify_of(m: KeyMap, active: Seq<(u8, u8)>, layer: u8) -> Option<
    (bool, KeyModel),
> {
    match m.spec_find(layer, 0) {
        Some(fm) => if !pair_pressed(active, layer, 0) {
            Some((true, fm.0))
        } else {
            Some((false, fm.0))
        },
        None => None,
    }
}

/// What the layer slot alone does to the state, on a tick without character
/// codes: a recorded slot first drops every entry of its layer, then
/// records the bare key; a removed slot retracts the bare key.
pub open spec fn spec_apply_modify_alone(
    st: TickState,
    layer: u8,
    modify: Option<(bool, KeyModel)>,
) -> TickState {
    match modify {
        Some(m) => if m.0 {
            TickState {
                log: spec_record(
                    spec_remove_layer(st.log, layer),
                    layer,
                    m.1.down,
                    0,
                    m.1.entrants,
                    st.ticket,
                ),
                ticket: (st.ticket + 1) as KbOracleTicket,
                active: st.active,
            }
        } else {
            TickState {
                log: spec_remove(st.log, layer, m.1.down),
                ticket: st.ticket,
                active: pairs_without(st.active, layer, 0),
            }
        },
        None => st,
    }
}

/// What one character scan code does to the state. The code resolves at the
/// layer, or falls back to the unmodified layer. A recorded layer slot is
/// reconciled against the character: a shifted character retracts the bare
/// layer entry, an unshifted one records it; a removed slot is retracted.
/// Then the character itself is recorded when unseen and retracted when
/// seen.
pub open spec fn spec_char_step(
    m: KeyMap,
    st: TickState,
    layer: u8,
    modify: Option<(bool, KeyModel)>,
    code: u8,
) -> TickState {
    let first = m.spec_find(layer, code);
    let char_layer: u8 = if first is Some {
        layer
    } else {
        0
    };
    let lookup = if first is Some {
        first
    } else {
        m.spec_find(0, code)
    };
    match lookup {
        None => st,
        Some(fm) => {
            let k = fm.0;
            let shifted = char_layer != 0 && k.down != 0;
            let st1 = match modify {
                Some(mo) => if mo.0 {
                    if layer != 0 && k.down != 0 && shifted {
                        TickState {
                            log: spec_remove(st.log, layer, mo.1.down),
                            ticket: st.ticket,
                            active: st.active,
                        }
                    } else if layer != 0 && !shifted {
                        TickState {
                            log: spec_record(st.log, layer, mo.1.down, 0, mo.1.entrants, st.ticket),
                            ticket: (st.ticket + 1) as KbOracleTicket,
                            active: st.active,
                        }
                    } else {
                        st
                    }
                } else {
                    TickState {
                        log: spec_remove(st.log, layer, mo.1.down),
                        ticket: st.ticket,
                        active: pairs_without(st.active, layer, 0),
                    }
                },
                None => st,
            };
            if !pair_pressed(st1.active, char_layer, code) {
                TickState {
                    log: spec_record(st1.log, char_layer, k.down, code, k.entrants, st1.ticket),
                    ticket: (st1.ticket + 1) as KbOracleTicket,
                    active: st1.active,
                }
            } else {
                TickState {
                    log: spec_remove(st1.log, char_layer, k.down),
                    ticket: st1.ticket,
                    active: pairs_without(st1.active, char_layer, code),
                }
            }
        },
    }
}

/// The character codes of a tick applied in order.
pub open spec fn spec_chars_fold(
    m: KeyMap,
    st: TickState,
    layer: u8,
    modify: Option<(bool, KeyModel)>,
    chars: Seq<u8>,
) -> TickState
    decreases chars.len(),
{
    if chars.len() == 0 {
        st
    } else {
        spec_chars_fold(m, spec_char_step(m, st, layer, modify, chars[0]), layer, modify, chars.drop_first())
    }
}

/// The state one tick with active codes leaves: the layer slot is
/// classified once; a tick without character codes applies it alone, one
/// with character codes reconciles it against each character in order.
pub open spec fn spec_tick(m: KeyMap, st: TickState, mods: Seq<u8>, chars: Seq<u8>) -> TickState {
    let layer = spec_layer_fold(mods);
    let modify = spec_modify_of(m, st.active, layer);
    if chars.len() == 0 {
        spec_apply_modify_alone(st, layer, modify)
    } else {
        spec_chars_fold(m, st, layer, modify, chars)
    }
}

/// The model of the single all-zero keyboard report of an idle tick.
pub open spec fn empty_report_model() -> ReportModel {
    ReportModel {
        is_keyboard: true,
        modifier: 0,
        keycodes: seq![0u8, 0u8, 0u8, 0u8, 0u8, 0u8],
        usage_id: 0,
    }
}

/// Copies a resolved key event.
fn clone_event(e: &KeyEvent) -> (r: KeyEvent)
    ensures
        r.0.key == e.0.key,
        r.0.action == e.0.action,
        r.0.usb_hid@ == e.0.usb_hid@,
        r.1 is KeyDown <==> e.1 is KeyDown,
        r.1 is KeyUp <==> e.1 is KeyUp,
{
    (e.0.clone(), e.1.clone())
}

/// The embedded keyboard driver: the key map and the session state.
pub struct KbDriver {
    pub key_map: KeyMap,
    pub key_state: KeyState,
}

impl KbDriver {
    /// A driver over the literal key map, with a fresh session.
    pub fn init() -> (r: KbDriver)
        ensures
            r.key_map.wf(),
            forall|l: int|
                0 <= l < crate::kbmap::NUM_LAYERS ==> ((#[trigger] r.key_map.layout@[l]) is Some
                    <==> crate::kbmap::hid::spec_layer_defined(l as u8)),
            forall|l: u8, s: u8|
                #![trigger r.key_map.has_entry(l, s)]
                #![trigger crate::kbmap::hid::spec_table_entry(l, s)]
                r.key_map.has_entry(l, s) <==> crate::kbmap::hid::spec_table_entry(l, s) is Some,
            forall|l: u8, s: u8|
                #[trigger] r.key_map.has_entry(l, s) ==> r.key_map.entry_model(l, s)
                    == crate::kbmap::hid::spec_table_entry(l, s)->0,
            tick_state_of(r.key_state) == (TickState {
                log: Seq::<LogEntryModel>::empty(),
                ticket: 0 as KbOracleTicket,
                active: Seq::<(u8, u8)>::empty(),
            }),
            r.key_state.oracle.skipped_tickets@ =~= Seq::<usize>::empty(),
            r.key_state.wf(),
    {
        let r = KbDriver { key_map: KeyMap::init(), key_state: KeyState::init() };
        proof {
            assert(r.key_state.oracle.log_model() =~= Seq::<LogEntryModel>::empty());
            assert(r.key_state.pressed_model() =~= Seq::<(u8, u8)>::empty());
        }
        r
    }

    /// One scan tick. With no active codes the session clears and the
    /// single all-zero keyboard report is returned; otherwise the state
    /// takes the tick transition and the reports of the resulting log come
    /// back, keyboard before consumer.
    pub fn process_key_event(
        &mut self,
        modifier_scan_codes: Vec<u8>,
        character_scan_codes: Vec<u8>,
    ) -> (r: Option<Vec<KbOracleReports>>)
        requires
            old(self).key_state.wf(),
            old(self).key_state.oracle.current_ticket + 2 * character_scan_codes@.len() + 1
                <= usize::MAX,
        ensures
            r is Some,
            final(self).key_map == old(self).key_map,
            final(self).key_state.wf(),
            final(self).key_state.oracle.skipped_tickets == old(
                self,
            ).key_state.oracle.skipped_tickets,
            (modifier_scan_codes@.len() == 0 && character_scan_codes@.len() == 0) ==> {
                &&& tick_state_of(final(self).key_state) == (TickState {
                    log: Seq::<LogEntryModel>::empty(),
                    ticket: 0 as KbOracleTicket,
                    active: Seq::<(u8, u8)>::empty(),
                })
                &&& r->0@.map_values(|x: KbOracleReports| report_model(x)) == seq![
                    empty_report_model(),
                ]
            },
            (modifier_scan_codes@.len() != 0 || character_scan_codes@.len() != 0) ==> {
                &&& tick_state_of(final(self).key_state) == spec_tick(
                    old(self).key_map,
                    tick_state_of(old(self).key_state),
                    modifier_scan_codes@,
                    character_scan_codes@,
                )
                &&& r->0@.map_values(|x: KbOracleReports| report_model(x))
                    == spec_generate_reports(
                    spec_tick(
                        old(self).key_map,
                        tick_state_of(old(self).key_state),
                        modifier_scan_codes@,
                        character_scan_codes@,
                    ).log,
                    old(self).key_state.oracle.skipped_tickets@,
                )
            },
    {
        if modifier_scan_codes.len() == 0 && character_scan_codes.len() == 0 {
            self.key_state.clear();
            let mut reports: Vec<KbOracleReports> = Vec::new();
            reports.push(KbOracleReports::init());
            proof {
                assert(reports@.map_values(|x: KbOracleReports| report_model(x)) =~= seq![
                    empty_report_model(),
                ]);
                assert(self.key_state.pressed_model() =~= Seq::<(u8, u8)>::empty());
            }
            return Some(reports);
        }

        let ghost st0 = tick_state_of(self.key_state);
        let ghost m = self.key_map;

        // the layer byte of this tick
        let mut layer: u8 = 0;
        let mut i: usize = 0;
        #[verifier::loop_isolation(false)]
        while i < modifier_scan_codes.len()
            invariant
                i <= modifier_scan_codes@.len(),
                layer == spec_layer_fold(modifier_scan_codes@.take(i as int)),
            decreases modifier_scan_codes@.len() - i,
        {
            proof {
                assert(modifier_scan_codes@.take(i + 1).drop_last() =~= modifier_scan_codes@.take(
                    i as int,
                ));
            }
            layer = layer | modifier_scan_codes[i];
            i += 1;
        }
        proof {
            assert(modifier_scan_codes@.take(modifier_scan_codes@.len() as int)
                =~= modifier_scan_codes@);
        }

        // classify the layer slot once per tick
        let ghost modify_m = spec_modify_of(m, st0.active, layer);
        let modified: Modify = {
            let key_event_input = self.key_map.find_input(layer, 0x00);
            match key_event_input {
                Some(event) => {
                    if !self.key_state.previously_pressed(layer, 0x00) {
                        Modify::Record((layer, 0x00, event))
                    } else {
                        Modify::Remove((layer, 0x00, event))
                    }
                },
                None => Modify::Idle,
            }
        };
        proof {
            match &modified {
                Modify::Record((l, s, ev)) => {
                    assert(modify_m matches Some(mo) && mo.0 && mo.1.down == ev.0.key
                        && mo.1.entrants == ev.0.usb_hid@);
                },
                Modify::Remove((l, s, ev)) => {
                    assert(modify_m matches Some(mo) && !mo.0 && mo.1.down == ev.0.key
                        && mo.1.entrants == ev.0.usb_hid@);
                },
                Modify::Idle => {
                    assert(modify_m is None);
                },
            }
        }

        if character_scan_codes.len() == 0 {
            match &modified {
                Modify::Record((modify_layer, modify_scan_code, modify_event)) => {
                    self.key_state.oracle.remove_layer(*modify_layer);
                    let ev = clone_event(modify_event);
                    self.key_state.record_key_event(*modify_layer, *modify_scan_code, ev);
                },
                Modify::Remove((modify_layer, modify_scan_code, modify_event)) => {
                    let ev = clone_event(modify_event);
                    self.key_state.remove_key_event(*modify_layer, *modify_scan_code, ev);
                },
                Modify::Idle => {},
            }
            proof {
                assert(tick_state_of(self.key_state) == spec_apply_modify_alone(
                    st0,
                    layer,
                    modify_m,
                ));
                assert(tick_state_of(self.key_state) == spec_tick(
                    m,
                    st0,
                    modifier_scan_codes@,
                    character_scan_codes@,
                ));
            }
        } else {
            let ghost chars = character_scan_codes@;
            let ghost target = spec_chars_fold(m, st0, layer, modify_m, chars);
            proof {
                assert(chars.skip(0) =~= chars);
            }
            let mut c: usize = 0;
            #[verifier::loop_isolation(false)]
            while c < character_scan_codes.len()
                invariant
                    c <= chars.len(),
                    self.key_map == m,
                    self.key_state.wf(),
                    self.key_state.oracle.skipped_tickets == old(
                        self,
                    ).key_state.oracle.skipped_tickets,
                    tick_state_of(self.key_state).ticket <= st0.ticket + 2 * c,
                    spec_chars_fold(m, tick_state_of(self.key_state), layer, modify_m, chars.skip(c as int))
                        == target,
                decreases chars.len() - c,
            {
                proof {
                    assert(chars.skip(c as int).drop_first() =~= chars.skip(c + 1));
                    assert(chars.skip(c as int)[0] == chars[c as int]);
                }
                let ghost st_before = tick_state_of(self.key_state);
                let code = character_scan_codes[c];

                let mut character_layer = layer;
                let mut key_event_input = self.key_map.find_input(character_layer, code);
                if key_event_input.is_none() {
                    character_layer = 0x00;
                    key_event_input = self.key_map.find_input(character_layer, code);
                }

                match key_event_input {
                    Some(event_input) => {
                        let shifted = character_layer != 0 && event_input.0.key != 0;
                        match &modified {
                            Modify::Record((modify_layer, modify_scan_code, modify_event)) => {
                                if layer != 0 && event_input.0.key != 0 && shifted {
                                    let ev = clone_event(modify_event);
                                    let entrants = ev.0.usb_hid.clone();
                                    self.key_state.oracle.remove(
                                        (*modify_layer, ev),
                                        (*modify_layer, *modify_scan_code, entrants),
                                    );
                                } else if layer != 0 && !shifted {
                                    let ev = clone_event(modify_event);
                                    self.key_state.record_key_event(
                                        *modify_layer,
                                        *modify_scan_code,
                                        ev,
                                    );
                                }
                            },
                            Modify::Remove((modify_layer, modify_scan_code, modify_event)) => {
                                let ev = clone_event(modify_event);
                                self.key_state.remove_key_event(
                                    *modify_layer,
                                    *modify_scan_code,
                                    ev,
                                );
                            },
                            Modify::Idle => {},
                        }
                        if !self.key_state.previously_pressed(character_layer, code) {
                            self.key_state.record_key_event(character_layer, code, event_input);
                        } else {
                            self.key_state.remove_key_event(character_layer, code, event_input);
                        }
                    },
                    None => {},
                }
                proof {
                    assert(tick_state_of(self.key_state) == spec_char_step(
                        m,
                        st_before,
                        layer,
                        modify_m,
                        chars[c as int],
                    ));
                }
                c += 1;
            }
            proof {
                assert(chars.skip(chars.len() as int) =~= Seq::<u8>::empty());
                assert(tick_state_of(self.key_state) == target);
                assert(tick_state_of(self.key_state) == spec_tick(
                    m,
                    st0,
                    modifier_scan_codes@,
                    character_scan_codes@,
                ));
            }
        }

        let mut for_scan_mods: Vec<u8> = Vec::new();
        let mut fi: usize = 0;
        #[verifier::loop_isolation(false)]
        while fi < modifier_scan_codes.len()
            invariant
                fi <= modifier_scan_codes@.len(),
            decreases modifier_scan_codes@.len() - fi,
        {
            for_scan_mods.push(modifier_scan_codes[fi]);
            fi += 1;
        }
        for_scan_mods.push(layer);
        Some(self.key_state.generate_reports((for_scan_mods, character_scan_codes)))
    }

    /// The driver's standing keyboard report list; the transport polls the
    /// latest generated reports instead, so this list stays empty.
    pub fn hid_report(self) -> (r: Vec<crate::oracle::KeyboardReport>)
        ensures
            r@.len() == 0,
    {
        Vec::new()
    }
}

/// The tick transition reads the key map only through `spec_find`, so two
/// maps that resolve every lookup alike drive every tick alike. Together
/// with the key map's same-model lemma this lets contracts over one built
/// map carry to any other copy of the same layout.
pub proof fn lemma_tick_map_congruent(
    m1: KeyMap,
    m2: KeyMap,
    st: TickState,
    mods: Seq<u8>,
    chars: Seq<u8>,
)
    requires
        forall|l: u8, s: u8| #[trigger] m1.spec_find(l, s) == m2.spec_find(l, s),
    ensures
        spec_tick(m1, st, mods, chars) == spec_tick(m2, st, mods, chars),
{
    let layer = spec_layer_fold(mods);
    assert(m1.spec_find(layer, 0) == m2.spec_find(layer, 0));
    let modify = spec_modify_of(m1, st.active, layer);
    assert(modify == spec_modify_of(m2, st.active, layer));
    if chars.len() != 0 {
        lemma_chars_fold_map_congruent(m1, m2, st, layer, modify, chars);
    }
}

/// The per-character fold is congruent in the map as well.
proof fn lemma_chars_fold_map_congruent(
    m1: KeyMap,
    m2: KeyMap,
    st: TickState,
    layer: u8,
    modify: Option<(bool, KeyModel)>,
    chars: Seq<u8>,
)
    requires
        forall|l: u8, s: u8| #[trigger] m1.spec_find(l, s) == m2.spec_find(l, s),
    ensures
        spec_chars_fold(m1, st, layer, modify, chars) == spec_chars_fold(
            m2,
            st,
            layer,
            modify,
            chars,
        ),
    decreases chars.len(),
{
    if chars.len() > 0 {
        assert(m1.spec_find(layer, chars[0]) == m2.spec_find(layer, chars[0]));
        assert(m1.spec_find(0, chars[0]) == m2.spec_find(0, chars[0]));
        assert(spec_char_step(m1, st, layer, modify, chars[0]) == spec_char_step(
            m2,
            st,
            layer,
            modify,
            chars[0],
        ));
        lemma_chars_fold_map_congruent(
            m1,
            m2,
            spec_char_step(m1, st, layer, modify, chars[0]),
            layer,
            modify,
            chars.drop_first(),
        );
    }
}

/// Order independence of modifier presses, at the driver: from a fresh
/// session, a tick that activates one modifier switch followed by a tick
/// that activates both leaves the same state — the same temporal log,
/// ticket counter and active pairs — whichever of the two switches came
/// first. Every later tick, and so every later report, is then identical
/// between the two histories; in particular the reports of a third tick
/// that adds a character key agree.
pub proof fn lemma_modifier_press_order_irrelevant(
    m: KeyMap,
    st0: TickState,
    a: u8,
    b: u8,
    mods_ab: Seq<u8>,
    mods_ba: Seq<u8>,
)
    requires
        m.wf(),
        st0.log == Seq::<LogEntryModel>::empty(),
        st0.active == Seq::<(u8, u8)>::empty(),
        a != 0,
        b != 0,
        m.spec_find(a, 0) is Some,
        m.spec_find(b, 0) is Some,
        m.spec_find(a | b, 0) is Some,
        spec_layer_fold(mods_ab) == a | b,
        spec_layer_fold(mods_ba) == a | b,
    ensures
        spec_tick(m, spec_tick(m, st0, seq![a], Seq::empty()), mods_ab, Seq::empty()) == spec_tick(
            m,
            spec_tick(m, st0, seq![b], Seq::empty()),
            mods_ba,
            Seq::empty(),
        ),
{
    let l = a | b;
    assert(a | (a | b) == (a | b)) by (bit_vector);
    assert(b | (a | b) == (a | b)) by (bit_vector);
    assert(a != 0 ==> (a | b) != 0) by (bit_vector);

    let s1 = lemma_first_bare_tick(m, st0, a);
    let s2 = lemma_first_bare_tick(m, st0, b);
    lemma_second_bare_tick(m, s1, a, l, mods_ab, st0.ticket);
    lemma_second_bare_tick(m, s2, b, l, mods_ba, st0.ticket);
}

/// The state a fresh session holds after one tick that activates the bare
/// slot of layer `x`: the single placeholder entry of `x` under the initial
/// ticket, the counter advanced once, the active pairs still empty.
proof fn lemma_first_bare_tick(m: KeyMap, st0: TickState, x: u8) -> (s: TickState)
    requires
        m.wf(),
        st0.log == Seq::<LogEntryModel>::empty(),
        st0.active == Seq::<(u8, u8)>::empty(),
        x != 0,
        m.spec_find(x, 0) is Some,
    ensures
        s == spec_tick(m, st0, seq![x], Seq::empty()),
        s.log =~= seq![
            LogEntryModel {
                ticket: st0.ticket,
                layer: x,
                code: 0,
                scan_code: 0,
                entrants: m.entry_model(x, 0).entrants,
            },
        ],
        s.ticket == (st0.ticket + 1) as KbOracleTicket,
        s.active == Seq::<(u8, u8)>::empty(),
{
    assert(seq![x].drop_last() =~= Seq::<u8>::empty());
    assert(spec_layer_fold(Seq::<u8>::empty()) == 0);
    assert(seq![x].last() == x);
    assert(0u8 | x == x) by (bit_vector);
    assert(spec_layer_fold(seq![x]) == x);

    assert(0u8 & 0x7F == 0) by (bit_vector);
    lemma_bare_slot_down_zero(m, x);
    let bare = m.entry_model(x, 0);

    assert(st0.active.len() == 0);
    assert(!pair_pressed(st0.active, x, 0));
    let modify = spec_modify_of(m, st0.active, x);
    assert(modify == Some((true, bare)));

    assert(st0.log.len() == 0);
    let removed = crate::oracle::spec_remove_layer(st0.log, x);
    assert(removed =~= Seq::<LogEntryModel>::empty());
    let rec = spec_record(removed, x, 0, 0, bare.entrants, st0.ticket);
    assert(rec =~= seq![
        LogEntryModel {
            ticket: st0.ticket,
            layer: x,
            code: 0,
            scan_code: 0,
            entrants: bare.entrants,
        },
    ]);
    let s = spec_tick(m, st0, seq![x], Seq::<u8>::empty());
    assert(s == spec_apply_modify_alone(st0, x, modify));
    assert(s.log == rec);
    s
}

/// The state after a further tick that activates the bare slot of the
/// combined layer `l`, when the log holds one placeholder of a layer `x`
/// whose bits lie within `l`: the stale placeholder is superseded, and only
/// the placeholder of `l` remains, under the second ticket. The outcome
/// does not depend on `x` at all.
proof fn lemma_second_bare_tick(
    m: KeyMap,
    s: TickState,
    x: u8,
    l: u8,
    mods: Seq<u8>,
    t0: KbOracleTicket,
)
    requires
        m.wf(),
        x != 0,
        l != 0,
        (x | l) == l,
        m.spec_find(x, 0) is Some,
        m.spec_find(l, 0) is Some,
        s.log =~= seq![
            LogEntryModel {
                ticket: t0,
                layer: x,
                code: 0,
                scan_code: 0,
                entrants: m.entry_model(x, 0).entrants,
            },
        ],
        s.ticket == (t0 + 1) as KbOracleTicket,
        s.active == Seq::<(u8, u8)>::empty(),
        spec_layer_fold(mods) == l,
    ensures
        spec_tick(m, s, mods, Seq::empty()) == (TickState {
            log: seq![
                LogEntryModel {
                    ticket: (t0 + 1) as KbOracleTicket,
                    layer: l,
                    code: 0,
                    scan_code: 0,
                    entrants: m.entry_model(l, 0).entrants,
                },
            ],
            ticket: (((t0 + 1) as KbOracleTicket) + 1) as KbOracleTicket,
            active: Seq::<(u8, u8)>::empty(),
        }),
{
    reveal_with_fuel(crate::oracle::keep_filter, 3);
    assert(0u8 & 0x7F == 0) by (bit_vector);
    lemma_bare_slot_down_zero(m, l);
    let bare_l = m.entry_model(l, 0);

    assert(s.active.len() == 0);
    assert(!pair_pressed(s.active, l, 0));
    let modify = spec_modify_of(m, s.active, l);
    assert(modify == Some((true, bare_l)));

    let e_x = LogEntryModel {
        ticket: t0,
        layer: x,
        code: 0,
        scan_code: 0,
        entrants: m.entry_model(x, 0).entrants,
    };
    assert(s.log == seq![e_x]);
    assert(s.log.len() == 1);
    assert(s.log.last() == e_x);
    assert(s.log.drop_last() =~= Seq::<LogEntryModel>::empty());
    assert(s.log.drop_last().len() == 0);

    let removed = crate::oracle::spec_remove_layer(s.log, l);
    let sup = crate::oracle::supersedes_bare(l, 0, 0, bare_l.entrants);
    assert(sup);
    // the stale placeholder is superseded whether or not its layer is l itself
    let kept = if x == l {
        assert(removed =~= Seq::<LogEntryModel>::empty());
        let kept = spec_record(removed, l, 0, 0, bare_l.entrants, s.ticket);
        assert(kept =~= seq![
            LogEntryModel {
                ticket: s.ticket,
                layer: l,
                code: 0,
                scan_code: 0,
                entrants: bare_l.entrants,
            },
        ]);
        kept
    } else {
        assert(removed =~= seq![e_x]);
        assert(removed.len() == 1);
        assert(removed.last() == e_x);
        assert(removed.drop_last() =~= Seq::<LogEntryModel>::empty());
        assert(removed.drop_last().len() == 0);
        assert(!crate::oracle::record_keep(e_x, l, 0, sup));
        let kept = spec_record(removed, l, 0, 0, bare_l.entrants, s.ticket);
        assert(kept =~= seq![
            LogEntryModel {
                ticket: s.ticket,
                layer: l,
                code: 0,
                scan_code: 0,
                entrants: bare_l.entrants,
            },
        ]);
        kept
    };

    let out = spec_tick(m, s, mods, Seq::<u8>::empty());
    assert(out == spec_apply_modify_alone(s, l, modify));
    assert(out.log == kept);
    assert(out.active =~= Seq::<(u8, u8)>::empty());
}

/// The bare slot of a layer holds a key whose down code is zero: well
/// placed entries sit in the slot of their own down code.
proof fn lemma_bare_slot_down_zero(m: KeyMap, layer: u8)
    requires
        m.wf(),
        m.spec_find(layer, 0) is Some,
    ensures
        m.entry_model(layer, 0).down == 0,
        m.spec_find(layer, 0) == Some((m.entry_model(layer, 0), true)),
{
    assert(0u8 & 0x7F == 0) by (bit_vector);
    assert(m.has_entry(layer, 0));
    assert(crate::kbmap::entry_well_placed(0, m.entry_model(layer, 0)));
}

} // verus!
