//! Session-local key state: the set of keys seen pressed, and the oracle
//! their events feed. The classifier of the driver consults this state to
//! tell a first-seen press from a release.

use vstd::prelude::*;

use crate::input::KeyEvent;
use crate::input::Modifiers;
use crate::input::modifier_code;
use crate::oracle::ActiveKey;
use crate::oracle::KbOracle;
use crate::oracle::KbOracleReports;
use crate::oracle::report_model;
use crate::oracle::spec_generate_reports;
use crate::oracle::spec_record;
use crate::oracle::spec_remove;

verus! {

/// The keys a session has seen pressed.
pub type ActiveKeys = Vec<ActiveKey>;

/// The `(layer, scan code)` pairs of an active key list.
pub open spec fn active_model(keys: Seq<ActiveKey>) -> Seq<(u8, u8)> {
    keys.map_values(|k: ActiveKey| (k.0, k.1))
}

/// True when the pair `(layer, scan_code)` is among the active pairs.
pub open spec fn pair_pressed(pairs: Seq<(u8, u8)>, layer: u8, scan_code: u8) -> bool {
    exists|i: int| 0 <= i < pairs.len() && pairs[i] == (layer, scan_code)
}

/// The active pairs without every occurrence of `(layer, scan_code)`.
pub open spec fn pairs_without(pairs: Seq<(u8, u8)>, layer: u8, scan_code: u8) -> Seq<(u8, u8)>
    decreases pairs.len(),
{
    if pairs.len() == 0 {
        Seq::empty()
    } else {
        pairs_without(pairs.drop_last(), layer, scan_code) + if pairs.last() != (
        layer,
        scan_code,
        ) {
            seq![pairs.last()]
        } else {
            Seq::empty()
        }
    }
}

/// The layer byte of a set of modifier combinations: the OR of their scan
/// codes. The defined codes are disjoint bit values, so OR and addition
/// agree.
pub open spec fn spec_layer_of(mods: Seq<Modifiers>) -> u8
    decreases mods.len(),
{
    if mods.len() == 0 {
        0
    } else {
        spec_layer_of(mods.drop_last()) | modifier_code(mods.last())
    }
}

/// The active key set and the oracle it feeds.
pub struct KeyState {
    pub active_keys: ActiveKeys,
    pub oracle: KbOracle,
}

impl KeyState {
    /// The oracle invariant carried through every state operation.
    pub open spec fn wf(self) -> bool {
        self.oracle.wf()
    }

    /// The active pairs of this state.
    pub open spec fn pressed_model(self) -> Seq<(u8, u8)> {
        active_model(self.active_keys@)
    }

    /// A state with no active keys and a fresh oracle.
    pub fn init() -> (r: KeyState)
        ensures
            r.pressed_model() =~= Seq::<(u8, u8)>::empty(),
            r.oracle.log_model() =~= Seq::<crate::oracle::LogEntryModel>::empty(),
            r.oracle.skipped_tickets@ =~= Seq::<usize>::empty(),
            r.oracle.current_ticket == 0,
            r.wf(),
    {
        KeyState { active_keys: Vec::new(), oracle: KbOracle::init() }
    }

    /// A state whose only active key is the given one, over a fresh oracle.
    pub fn of_single_key(active_key: ActiveKey) -> (r: KeyState)
        ensures
            r.pressed_model() =~= seq![(active_key.0, active_key.1)],
            r.oracle.log_model() =~= Seq::<crate::oracle::LogEntryModel>::empty(),
            r.wf(),
    {
        let mut active_keys: ActiveKeys = Vec::new();
        active_keys.push(active_key);
        KeyState { active_keys, oracle: KbOracle::init() }
    }

    /// Forgets every active key and clears the oracle.
    pub fn clear(&mut self)
        ensures
            final(self).pressed_model() =~= Seq::<(u8, u8)>::empty(),
            final(self).oracle.log_model() =~= Seq::<crate::oracle::LogEntryModel>::empty(),
            final(self).oracle.current_ticket == 0,
            final(self).oracle.skipped_tickets == old(self).oracle.skipped_tickets,
            final(self).wf(),
    {
        self.active_keys = Vec::new();
        self.oracle.clear();
    }

    /// Folds the active modifier combinations into the layer byte.
    pub fn handle_modifier_event(&mut self, modifier_scan_codes: Vec<Modifiers>) -> (r: u8)
        ensures
            r == spec_layer_of(modifier_scan_codes@),
            *final(self) == *old(self),
    {
        let mut layer: u8 = 0;
        let mut i: usize = 0;
        #[verifier::loop_isolation(false)]
        while i < modifier_scan_codes.len()
            invariant
                i <= modifier_scan_codes@.len(),
                layer == spec_layer_of(modifier_scan_codes@.take(i as int)),
            decreases modifier_scan_codes@.len() - i,
        {
            proof {
                assert(modifier_scan_codes@.take(i + 1).drop_last() =~= modifier_scan_codes@.take(
                    i as int,
                ));
            }
            let code = modifier_scan_codes[i].code();
            layer = layer | code;
            i += 1;
        }
        proof {
            assert(modifier_scan_codes@.take(modifier_scan_codes@.len() as int)
                =~= modifier_scan_codes@);
        }
        layer
    }

    /// Accepts a resolved key event: the active set becomes the event's key
    /// alone. Returns whether an event was handled, and, when the event sits
    /// at a shifted layer away from the bare slot, a copy of the new state.
    pub fn handle_key_event(&mut self, modifier_code: u8, key_event_inp: Option<KeyEvent>) -> (r: (
        bool,
        Option<KeyState>,
    ))
        requires
            old(self).wf(),
        ensures
            final(self).wf(),
            final(self).oracle == old(self).oracle,
            key_event_inp is None ==> {
                &&& r.0 == false
                &&& r.1 is None
                &&& final(self).active_keys == old(self).active_keys
            },
            key_event_inp matches Some(ev) ==> {
                &&& r.0 == true
                &&& final(self).active_keys@.len() == 1
                &&& final(self).active_keys@[0].0 == modifier_code
                &&& final(self).active_keys@[0].1 == ev.0.key
                &&& final(self).active_keys@[0].2@ == ev.0.usb_hid@
                &&& final(self).pressed_model() =~= seq![(modifier_code, ev.0.key)]
                &&& (r.1 is Some <==> modifier_code != 0 && ev.0.key != 0)
                &&& (r.1 matches Some(copy) ==> copy.pressed_model() == final(self).pressed_model()
                    && copy.oracle.log_model() == final(self).oracle.log_model())
            },
    {
        match key_event_inp {
            Some(key_event) => {
                let scan_code = key_event.0.key;
                let entrants = key_event.0.usb_hid.clone();
                let active_key: ActiveKey = (modifier_code, scan_code, entrants);
                let mut active_keys: ActiveKeys = Vec::new();
                active_keys.push(active_key);
                self.active_keys = active_keys;
                let out = if modifier_code != 0 && scan_code != 0 {
                    Some(self.snapshot())
                } else {
                    None
                };
                (true, out)
            },
            None => (false, None),
        }
    }

    /// A copy of this state with the same models.
    pub fn snapshot(&self) -> (r: KeyState)
        ensures
            r.pressed_model() == self.pressed_model(),
            r.oracle.log_model() == self.oracle.log_model(),
            r.oracle.skipped_tickets@ == self.oracle.skipped_tickets@,
            r.oracle.current_ticket == self.oracle.current_ticket,
    {
        let mut active_keys: ActiveKeys = Vec::new();
        let mut i: usize = 0;
        #[verifier::loop_isolation(false)]
        while i < self.active_keys.len()
            invariant
                i <= self.active_keys@.len(),
                active_model(active_keys@) == active_model(self.active_keys@.take(i as int)),
            decreases self.active_keys@.len() - i,
        {
            let ghost prev = active_keys@;
            let k = &self.active_keys[i];
            active_keys.push((k.0, k.1, k.2.clone()));
            proof {
                let target = active_model(self.active_keys@.take(i + 1));
                assert forall|j: int| 0 <= j < i + 1 implies active_model(active_keys@)[j]
                    == target[j] by {
                    if j < i {
                        assert(active_model(active_keys@)[j] == active_model(prev)[j]);
                        assert(active_model(self.active_keys@.take(i as int))[j] == target[j]);
                    } else {
                        assert(active_keys@[j].0 == k.0 && active_keys@[j].1 == k.1);
                        assert(self.active_keys@.take(i + 1)[j] == self.active_keys@[i as int]);
                    }
                }
                assert(active_model(active_keys@) =~= target);
            }
            i += 1;
        }
        proof {
            assert(self.active_keys@.take(self.active_keys@.len() as int) =~= self.active_keys@);
            assert(active_model(active_keys@) =~= active_model(self.active_keys@));
        }
        KeyState { active_keys, oracle: self.oracle.snapshot() }
    }

    /// True when the most recently seen key is `(modifier_code, scan_code)`.
    pub fn last_pressed(&self, modifier_code: u8, scan_code: u8) -> (r: bool)
        ensures
            r == (self.pressed_model().len() > 0 && self.pressed_model().last() == (
            modifier_code,
            scan_code,
            )),
    {
        if self.active_keys.len() == 0 {
            return false;
        }
        let k = &self.active_keys[self.active_keys.len() - 1];
        k.0 == modifier_code && k.1 == scan_code
    }

    /// True when `(modifier_code, scan_code)` has been seen pressed and not
    /// yet removed.
    pub fn previously_pressed(&self, modifier_code: u8, scan_code: u8) -> (r: bool)
        ensures
            r == pair_pressed(self.pressed_model(), modifier_code, scan_code),
    {
        let mut i: usize = 0;
        #[verifier::loop_isolation(false)]
        while i < self.active_keys.len()
            invariant
                i <= self.active_keys@.len(),
                forall|j: int|
                    0 <= j < i ==> (#[trigger] self.pressed_model()[j]) != (
                    modifier_code,
                    scan_code,
                    ),
            decreases self.active_keys@.len() - i,
        {
            let k = &self.active_keys[i];
            if k.0 == modifier_code && k.1 == scan_code {
                proof {
                    assert(self.pressed_model()[i as int] == (modifier_code, scan_code));
                }
                return true;
            }
            i += 1;
        }
        false
    }

    /// Pushes the resolved event into the oracle under a fresh ticket. The
    /// active set is not consulted or changed here; the oracle's
    /// reconciliation decides what the event renews or evicts.
    pub fn record_key_event(&mut self, modifier_code: u8, scan_code: u8, key_event: KeyEvent)
        requires
            old(self).wf(),
            old(self).oracle.current_ticket < usize::MAX,
        ensures
            final(self).wf(),
            final(self).pressed_model() == old(self).pressed_model(),
            final(self).oracle.log_model() == spec_record(
                old(self).oracle.log_model(),
                modifier_code,
                key_event.0.key,
                scan_code,
                key_event.0.usb_hid@,
                old(self).oracle.current_ticket,
            ),
            final(self).oracle.current_ticket == old(self).oracle.current_ticket + 1,
            final(self).oracle.skipped_tickets == old(self).oracle.skipped_tickets,
    {
        let entrants = key_event.0.usb_hid.clone();
        let active_key: ActiveKey = (modifier_code, scan_code, entrants);
        self.oracle.record((modifier_code, key_event), active_key);
    }

    /// Retracts the key from the session: every active pair of the key
    /// goes, and the oracle drops every log entry of the same layer and key
    /// code.
    pub fn remove_key_event(&mut self, modifier_code: u8, scan_code: u8, key_event: KeyEvent)
        requires
            old(self).wf(),
        ensures
            final(self).wf(),
            final(self).pressed_model() == pairs_without(
                old(self).pressed_model(),
                modifier_code,
                scan_code,
            ),
            final(self).oracle.log_model() == spec_remove(
                old(self).oracle.log_model(),
                modifier_code,
                key_event.0.key,
            ),
            final(self).oracle.current_ticket == old(self).oracle.current_ticket,
            final(self).oracle.skipped_tickets == old(self).oracle.skipped_tickets,
    {
        let ghost old_active = self.active_keys@;
        let mut kept: ActiveKeys = Vec::new();
        let mut i: usize = 0;
        #[verifier::loop_isolation(false)]
        while i < self.active_keys.len()
            invariant
                i <= self.active_keys@.len(),
                self.active_keys@ == old_active,
                active_model(kept@) == pairs_without(
                    active_model(old_active.take(i as int)),
                    modifier_code,
                    scan_code,
                ),
            decreases self.active_keys@.len() - i,
        {
            proof {
                assert(active_model(old_active.take(i + 1)).drop_last() =~= active_model(
                    old_active.take(i as int),
                ));
                assert(active_model(old_active.take(i + 1)).last() == (
                    old_active[i as int].0,
                    old_active[i as int].1,
                ));
            }
            let k = &self.active_keys[i];
            if !(k.0 == modifier_code && k.1 == scan_code) {
                kept.push((k.0, k.1, k.2.clone()));
                proof {
                    assert(active_model(kept@) =~= pairs_without(
                        active_model(old_active.take(i as int)),
                        modifier_code,
                        scan_code,
                    ) + seq![(old_active[i as int].0, old_active[i as int].1)]);
                }
            }
            i += 1;
        }
        proof {
            assert(old_active.take(old_active.len() as int) =~= old_active);
        }
        self.active_keys = kept;
        self.oracle.remove(
            (modifier_code, key_event),
            (modifier_code, scan_code, Vec::new()),
        );
    }

    /// The reports of the current oracle state.
    pub fn generate_reports(&self, for_scan: (Vec<u8>, Vec<u8>)) -> (r: Vec<KbOracleReports>)
        ensures
            r@.map_values(|x: KbOracleReports| report_model(x)) == spec_generate_reports(
                self.oracle.log_model(),
                self.oracle.skipped_tickets@,
            ),
    {
        self.oracle.generate_reports(for_scan)
    }
}

} // verus!
