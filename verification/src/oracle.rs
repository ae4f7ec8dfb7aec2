//! The temporal reconciliation core. The oracle keeps a chronologically
//! ordered log of active key events, each under a fresh, monotonically
//! increasing ticket; reconciles bare layer placeholders with macro keys;
//! and folds the live log into the HID reports of one tick.

use vstd::prelude::*;

use crate::input::KeyEvent;
use crate::kbmap::KeyboardMapEntrant;
use crate::kbmap::entrant_key_code;
use crate::kbmap::entrant_usage_id;
use crate::kbmap::is_canonical_modifier;
use crate::kbmap::KBD_LEFT_CONTROL;
use crate::kbmap::KBD_RIGHT_GUI;

verus! {

/// An active key as the log stores it: the layer it was resolved under, its
/// scan code, and the HID entrants it contributes.
pub type ActiveKey = (u8, u8, Vec<KeyboardMapEntrant>);

/// A ticket: the unique, monotonically increasing identity of a log entry.
pub type KbOracleTicket = usize;

/// One entry of the temporal log: the ticket, the layer, the resolved key
/// event, and the active key whose entrants feed the reports.
pub struct TemporalLogEntry {
    pub ticket: KbOracleTicket,
    pub layer: u8,
    pub key_event: KeyEvent,
    pub active_key: ActiveKey,
}

/// The mathematical shadow of a log entry: what reconciliation and report
/// generation read of it.
pub ghost struct LogEntryModel {
    pub ticket: KbOracleTicket,
    pub layer: u8,
    pub code: u8,
    pub scan_code: u8,
    pub entrants: Seq<KeyboardMapEntrant>,
}

/// The model of an executable log entry: its key code is the down code of
/// the resolved key, its entrants those of the active key.
pub open spec fn log_entry_model(e: TemporalLogEntry) -> LogEntryModel {
    LogEntryModel {
        ticket: e.ticket,
        layer: e.layer,
        code: e.key_event.0.key,
        scan_code: e.active_key.1,
        entrants: e.active_key.2@,
    }
}

/// A macro key event: a key resolved at a non-zero layer, away from the
/// bare layer slot, carrying a combo payload. Recording one evicts the bare
/// placeholder entries it supersedes, so a placeholder's entrants cannot
/// reappear beside the combo in the next report.
pub open spec fn is_macro_event(layer: u8, scan_code: u8, entrants: Seq<KeyboardMapEntrant>) -> bool {
    layer != 0 && scan_code != 0 && entrants.len() > 0
}

/// True when the incoming event supersedes bare placeholder entries: it is
/// the bare placeholder of a non-zero layer itself, or a macro key. Such an
/// event stands for every switch its layer byte names, so the placeholders
/// of the layers it covers are stale once it records.
pub open spec fn supersedes_bare(
    layer: u8,
    code: u8,
    scan_code: u8,
    entrants: Seq<KeyboardMapEntrant>,
) -> bool {
    layer != 0 && (code == 0 || is_macro_event(layer, scan_code, entrants))
}

/// The entries a `record` of `(layer, code)` keeps. An entry of the layer
/// under the same key code goes (the incoming event renews it). When the
/// incoming event supersedes bare placeholders, the placeholder of every
/// non-zero layer whose bits lie within the incoming layer goes too: that
/// placeholder described a strict part of the switches now held, and keeping
/// it would make the generated report depend on the order the switches were
/// pressed in. Everything else stays untouched.
pub open spec fn record_keep(e: LogEntryModel, layer: u8, code: u8, sup: bool) -> bool {
    !((sup && e.layer != 0 && e.code == 0 && (e.layer | layer) == layer) || (e.layer == layer
        && e.code == code))
}

/// The subsequence of `log` whose entries satisfy `pred`, in log order.
pub open spec fn keep_filter(
    log: Seq<LogEntryModel>,
    pred: spec_fn(LogEntryModel) -> bool,
) -> Seq<LogEntryModel>
    decreases log.len(),
{
    if log.len() == 0 {
        Seq::empty()
    } else {
        keep_filter(log.drop_last(), pred) + if pred(log.last()) {
            seq![log.last()]
        } else {
            Seq::empty()
        }
    }
}

/// Every kept entry satisfies the predicate.
pub proof fn lemma_keep_filter_pred(log: Seq<LogEntryModel>, pred: spec_fn(LogEntryModel) -> bool)
    ensures
        forall|i: int| 0 <= i < keep_filter(log, pred).len() ==> pred(#[trigger] keep_filter(log, pred)[i]),
    decreases log.len(),
{
    if log.len() > 0 {
        lemma_keep_filter_pred(log.drop_last(), pred);
        let kept = keep_filter(log, pred);
        let prev = keep_filter(log.drop_last(), pred);
        assert forall|i: int| 0 <= i < kept.len() implies pred(#[trigger] kept[i]) by {
            if i < prev.len() {
                assert(kept[i] == prev[i]);
            } else {
                assert(kept[i] == log.last());
            }
        }
    }
}

/// Every kept entry comes from the log.
pub proof fn lemma_keep_filter_contains(
    log: Seq<LogEntryModel>,
    pred: spec_fn(LogEntryModel) -> bool,
)
    ensures
        forall|i: int|
            0 <= i < keep_filter(log, pred).len() ==> log.contains(
                #[trigger] keep_filter(log, pred)[i],
            ),
    decreases log.len(),
{
    if log.len() > 0 {
        lemma_keep_filter_contains(log.drop_last(), pred);
        assert forall|i: int| 0 <= i < keep_filter(log, pred).len() implies log.contains(
            #[trigger] keep_filter(log, pred)[i],
        ) by {
            let kept = keep_filter(log, pred);
            let prev = keep_filter(log.drop_last(), pred);
            if i < prev.len() {
                assert(log.drop_last().contains(prev[i]));
                let j = choose|j: int| 0 <= j < log.drop_last().len() && log.drop_last()[j] == prev[i];
                assert(log[j] == kept[i]);
            } else {
                assert(kept[i] == log.last());
                assert(log[log.len() - 1] == log.last());
            }
        }
    }
}

/// Filtering twice with one predicate filters once.
pub proof fn lemma_keep_filter_idempotent(
    log: Seq<LogEntryModel>,
    pred: spec_fn(LogEntryModel) -> bool,
)
    ensures
        keep_filter(keep_filter(log, pred), pred) == keep_filter(log, pred),
    decreases log.len(),
{
    if log.len() == 0 {
    } else {
        lemma_keep_filter_idempotent(log.drop_last(), pred);
        let prev = keep_filter(log.drop_last(), pred);
        if pred(log.last()) {
            assert(keep_filter(log, pred) == prev.push(log.last()));
            assert(prev.push(log.last()).drop_last() =~= prev);
            assert(keep_filter(prev.push(log.last()), pred) =~= keep_filter(prev, pred) + seq![
                log.last(),
            ]);
            assert(keep_filter(prev, pred) + seq![log.last()] =~= prev.push(log.last()));
        } else {
            assert(keep_filter(log, pred) =~= prev);
        }
    }
}

/// A retention rule of the log: which entries a structural removal keeps.
enum RetainRule {
    NotLayerCode(u8, u8),
    NotTicket(KbOracleTicket),
    NotLayer(u8),
}

/// What a retention rule keeps of an entry.
spec fn rule_keeps(r: RetainRule, e: LogEntryModel) -> bool {
    match r {
        RetainRule::NotLayerCode(layer, code) => !(e.layer == layer && e.code == code),
        RetainRule::NotTicket(ticket) => e.ticket != ticket,
        RetainRule::NotLayer(layer) => e.layer != layer,
    }
}

/// Copies a log entry; the copy has the same model.
fn clone_entry(e: &TemporalLogEntry) -> (r: TemporalLogEntry)
    ensures
        log_entry_model(r) == log_entry_model(*e),
{
    TemporalLogEntry {
        ticket: e.ticket,
        layer: e.layer,
        key_event: (e.key_event.0.clone(), e.key_event.1.clone()),
        active_key: (e.active_key.0, e.active_key.1, e.active_key.2.clone()),
    }
}

/// Two predicates that agree keep the same entries.
pub proof fn lemma_keep_filter_ext(
    log: Seq<LogEntryModel>,
    p: spec_fn(LogEntryModel) -> bool,
    q: spec_fn(LogEntryModel) -> bool,
)
    requires
        forall|e: LogEntryModel| #[trigger] p(e) == q(e),
    ensures
        keep_filter(log, p) == keep_filter(log, q),
    decreases log.len(),
{
    if log.len() > 0 {
        lemma_keep_filter_ext(log.drop_last(), p, q);
    }
}

/// Tickets strictly increase along the log.
pub open spec fn tickets_sorted(log: Seq<LogEntryModel>) -> bool {
    forall|i: int, j: int| 0 <= i < j < log.len() ==> log[i].ticket < log[j].ticket
}

/// Every ticket in the log lies below the bound.
pub open spec fn tickets_below(log: Seq<LogEntryModel>, bound: int) -> bool {
    forall|i: int| 0 <= i < log.len() ==> (#[trigger] log[i]).ticket < bound
}

/// Filtering keeps tickets sorted and bounded.
pub proof fn lemma_keep_filter_tickets(
    log: Seq<LogEntryModel>,
    pred: spec_fn(LogEntryModel) -> bool,
    bound: int,
)
    requires
        tickets_sorted(log),
        tickets_below(log, bound),
    ensures
        tickets_sorted(keep_filter(log, pred)),
        tickets_below(keep_filter(log, pred), bound),
    decreases log.len(),
{
    if log.len() > 0 {
        let prev = keep_filter(log.drop_last(), pred);
        assert(tickets_sorted(log.drop_last()));
        assert(tickets_below(log.drop_last(), bound));
        lemma_keep_filter_tickets(log.drop_last(), pred, bound);
        lemma_keep_filter_contains(log.drop_last(), pred);
        let kept = keep_filter(log, pred);
        assert forall|i: int, j: int| 0 <= i < j < kept.len() implies kept[i].ticket
            < kept[j].ticket by {
            if j < prev.len() {
            } else if pred(log.last()) && j == prev.len() {
                assert(kept[j] == log.last());
                assert(log.drop_last().contains(prev[i]));
                let w = choose|w: int|
                    0 <= w < log.drop_last().len() && log.drop_last()[w] == prev[i];
                assert(log[w].ticket < log[log.len() - 1].ticket);
            }
        }
        assert forall|i: int| 0 <= i < kept.len() implies (#[trigger] kept[i]).ticket < bound by {
            if i < prev.len() {
            } else {
                assert(kept[i] == log.last());
                assert(log[log.len() - 1].ticket < bound);
            }
        }
    }
}

/// What `record` leaves in the log: the kept entries followed by the fresh
/// entry under the given ticket.
pub open spec fn spec_record(
    log: Seq<LogEntryModel>,
    layer: u8,
    code: u8,
    scan_code: u8,
    entrants: Seq<KeyboardMapEntrant>,
    ticket: KbOracleTicket,
) -> Seq<LogEntryModel> {
    let sup = supersedes_bare(layer, code, scan_code, entrants);
    keep_filter(log, |e: LogEntryModel| record_keep(e, layer, code, sup)).push(
        LogEntryModel { ticket, layer, code, scan_code, entrants },
    )
}

/// What `remove` leaves: every entry of the same layer under the same key
/// code goes; everything else stays.
pub open spec fn spec_remove(log: Seq<LogEntryModel>, layer: u8, code: u8) -> Seq<LogEntryModel> {
    keep_filter(log, |e: LogEntryModel| !(e.layer == layer && e.code == code))
}

/// What `drop` leaves: every entry under the ticket goes.
pub open spec fn spec_drop_ticket(log: Seq<LogEntryModel>, ticket: KbOracleTicket) -> Seq<
    LogEntryModel,
> {
    keep_filter(log, |e: LogEntryModel| e.ticket != ticket)
}

/// What `remove_layer` leaves: every entry of the layer goes.
pub open spec fn spec_remove_layer(log: Seq<LogEntryModel>, layer: u8) -> Seq<LogEntryModel> {
    keep_filter(log, |e: LogEntryModel| e.layer != layer)
}

/// What `drop_index` leaves: the log without its entry at `index`, or the
/// log unchanged when the index is out of range.
pub open spec fn spec_drop_index(log: Seq<LogEntryModel>, index: int) -> Seq<LogEntryModel> {
    if 0 <= index < log.len() {
        log.remove(index)
    } else {
        log
    }
}

/// What `drop_indexes` leaves: exactly the entries whose original, pre-call
/// positions are not listed, in their original order. The indexes name
/// entries of the log as it stood at the call, so listing several positions
/// evicts exactly those entries — no index ever shifts onto a survivor.
pub open spec fn spec_drop_positions(log: Seq<LogEntryModel>, indexes: Seq<usize>) -> Seq<
    LogEntryModel,
>
    decreases log.len(),
{
    if log.len() == 0 {
        Seq::empty()
    } else {
        spec_drop_positions(log.drop_last(), indexes) + if indexes.contains(
            (log.len() - 1) as usize,
        ) {
            Seq::empty()
        } else {
            seq![log.last()]
        }
    }
}

/// Every survivor of a positional eviction comes from the log.
pub proof fn lemma_drop_positions_contains(log: Seq<LogEntryModel>, indexes: Seq<usize>)
    ensures
        forall|i: int|
            0 <= i < spec_drop_positions(log, indexes).len() ==> log.contains(
                #[trigger] spec_drop_positions(log, indexes)[i],
            ),
    decreases log.len(),
{
    if log.len() > 0 {
        lemma_drop_positions_contains(log.drop_last(), indexes);
        assert forall|i: int| 0 <= i < spec_drop_positions(log, indexes).len() implies log.contains(
            #[trigger] spec_drop_positions(log, indexes)[i],
        ) by {
            let kept = spec_drop_positions(log, indexes);
            let prev = spec_drop_positions(log.drop_last(), indexes);
            if i < prev.len() {
                assert(log.drop_last().contains(prev[i]));
                let j = choose|j: int|
                    0 <= j < log.drop_last().len() && log.drop_last()[j] == prev[i];
                assert(log[j] == kept[i]);
            } else {
                assert(kept[i] == log.last());
                assert(log[log.len() - 1] == log.last());
            }
        }
    }
}

/// A positional eviction keeps tickets sorted and bounded.
pub proof fn lemma_drop_positions_tickets(
    log: Seq<LogEntryModel>,
    indexes: Seq<usize>,
    bound: int,
)
    requires
        tickets_sorted(log),
        tickets_below(log, bound),
    ensures
        tickets_sorted(spec_drop_positions(log, indexes)),
        tickets_below(spec_drop_positions(log, indexes), bound),
    decreases log.len(),
{
    if log.len() > 0 {
        let prev = spec_drop_positions(log.drop_last(), indexes);
        assert(tickets_sorted(log.drop_last()));
        assert(tickets_below(log.drop_last(), bound));
        lemma_drop_positions_tickets(log.drop_last(), indexes, bound);
        lemma_drop_positions_contains(log.drop_last(), indexes);
        let kept = spec_drop_positions(log, indexes);
        assert forall|i: int, j: int| 0 <= i < j < kept.len() implies kept[i].ticket
            < kept[j].ticket by {
            if j < prev.len() {
            } else if j == prev.len() && kept.len() > prev.len() {
                assert(kept[j] == log.last());
                assert(log.drop_last().contains(prev[i]));
                let w = choose|w: int|
                    0 <= w < log.drop_last().len() && log.drop_last()[w] == prev[i];
                assert(log[w].ticket < log[log.len() - 1].ticket);
            }
        }
        assert forall|i: int| 0 <= i < kept.len() implies (#[trigger] kept[i]).ticket < bound by {
            if i < prev.len() {
            } else {
                assert(kept[i] == log.last());
                assert(log[log.len() - 1].ticket < bound);
            }
        }
    }
}

/// True when the entrant list holds at least one consumer-control entrant.
pub open spec fn has_consumer(entrants: Seq<KeyboardMapEntrant>) -> bool {
    exists|i: int| 0 <= i < entrants.len() && entrants[i] is Consumer
}

/// The flattened entrants of the live keyboard subsequence: entries whose
/// ticket is not retired and whose entrants hold no consumer entrant, in log
/// order.
pub open spec fn live_keyboard_entrants(log: Seq<LogEntryModel>, skipped: Seq<usize>) -> Seq<
    KeyboardMapEntrant,
>
    decreases log.len(),
{
    if log.len() == 0 {
        Seq::empty()
    } else {
        live_keyboard_entrants(log.drop_last(), skipped) + if !skipped.contains(
            log.last().ticket,
        ) && !has_consumer(log.last().entrants) {
            log.last().entrants
        } else {
            Seq::empty()
        }
    }
}

/// The flattened entrants of the live consumer subsequence: entries whose
/// ticket is not retired and whose entrants hold a consumer entrant, in log
/// order.
pub open spec fn live_consumer_entrants(log: Seq<LogEntryModel>, skipped: Seq<usize>) -> Seq<
    KeyboardMapEntrant,
>
    decreases log.len(),
{
    if log.len() == 0 {
        Seq::empty()
    } else {
        live_consumer_entrants(log.drop_last(), skipped) + if !skipped.contains(
            log.last().ticket,
        ) && has_consumer(log.last().entrants) {
            log.last().entrants
        } else {
            Seq::empty()
        }
    }
}

/// The modifier bit an entrant contributes: canonical modifier keycodes map
/// to their bit position, every other entrant contributes nothing.
pub open spec fn modifier_bit(e: KeyboardMapEntrant) -> u8 {
    if is_canonical_modifier(e) {
        (1u8 << ((entrant_key_code(e) - KBD_LEFT_CONTROL) as u8)) as u8
    } else {
        0
    }
}

/// The modifier byte of an entrant sequence: the OR of the bits of its
/// canonical modifier entrants. A modifier occurring twice sets its bit
/// once.
pub open spec fn modifier_mask(s: Seq<KeyboardMapEntrant>) -> u8
    decreases s.len(),
{
    if s.len() == 0 {
        0
    } else {
        modifier_mask(s.drop_last()) | modifier_bit(s.last())
    }
}

/// The keycodes destined for the report slots: the keycodes of the
/// non-modifier entrants, in encounter order, before truncation.
pub open spec fn slot_codes(s: Seq<KeyboardMapEntrant>) -> Seq<u8>
    decreases s.len(),
{
    if s.len() == 0 {
        Seq::empty()
    } else {
        slot_codes(s.drop_last()) + if !is_canonical_modifier(s.last()) {
            seq![entrant_key_code(s.last())]
        } else {
            Seq::empty()
        }
    }
}

/// The six keycode slots: the first six slot codes in order, zero-padded.
pub open spec fn spec_keycode_slots(s: Seq<KeyboardMapEntrant>) -> Seq<u8> {
    Seq::new(6, |i: int| if i < slot_codes(s).len() { slot_codes(s)[i] } else { 0 })
}

/// The mathematical shadow of a report: one structure covers both kinds.
pub ghost struct ReportModel {
    pub is_keyboard: bool,
    pub modifier: u8,
    pub keycodes: Seq<u8>,
    pub usage_id: u16,
}

/// The keyboard report of an entrant sequence: its modifier byte and its six
/// keycode slots.
pub open spec fn spec_keyboard_report(s: Seq<KeyboardMapEntrant>) -> ReportModel {
    ReportModel {
        is_keyboard: true,
        modifier: modifier_mask(s),
        keycodes: spec_keycode_slots(s),
        usage_id: 0,
    }
}

/// The consumer report of an entrant sequence: the usage id of its first
/// entrant. There is one consumer slot; a second simultaneous consumer
/// press is not representable and is dropped.
pub open spec fn spec_consumer_report(s: Seq<KeyboardMapEntrant>) -> ReportModel {
    ReportModel {
        is_keyboard: false,
        modifier: 0,
        keycodes: Seq::empty(),
        usage_id: if s.len() > 0 {
            entrant_usage_id(s[0])
        } else {
            0
        },
    }
}

/// True of a report with nothing to say: a keyboard report whose modifier
/// byte and keycode slots are all zero, or a consumer report without a
/// usage.
pub open spec fn spec_report_empty(r: ReportModel) -> bool {
    if r.is_keyboard {
        r.modifier == 0 && forall|i: int| 0 <= i < r.keycodes.len() ==> r.keycodes[i] == 0
    } else {
        r.usage_id == 0
    }
}

/// The reports of one tick: the keyboard report of the live keyboard
/// entrants, then the consumer report when a live consumer entry exists,
/// with empty reports discarded. Keyboard reports come before consumer
/// reports.
pub open spec fn spec_generate_reports(log: Seq<LogEntryModel>, skipped: Seq<usize>) -> Seq<
    ReportModel,
> {
    let kb = spec_keyboard_report(live_keyboard_entrants(log, skipped));
    let cons_ents = live_consumer_entrants(log, skipped);
    let base: Seq<ReportModel> = if spec_report_empty(kb) {
        Seq::empty()
    } else {
        seq![kb]
    };
    if cons_ents.len() > 0 {
        let cr = spec_consumer_report(cons_ents);
        if spec_report_empty(cr) {
            base
        } else {
            base.push(cr)
        }
    } else {
        base
    }
}

/// A keyboard report: the modifier bitmask, two fixed bytes, and six
/// zero-padded keycode slots.
#[derive(Debug)]
pub struct KeyboardReport {
    pub modifier: u8,
    pub reserved: u8,
    pub leds: u8,
    pub keycodes: Vec<u8>,
}

/// A consumer-control report: a single usage id.
#[derive(Clone, Copy, Debug, PartialEq, Eq, Structural)]
pub struct MediaKeyboardReport {
    pub usage_id: u16,
}

/// A report of either kind, as the transport receives it.
#[derive(Debug)]
pub enum KbOracleReports {
    Keyboard(KeyboardReport),
    Consumer(MediaKeyboardReport),
}

/// The model of a report value.
pub open spec fn report_model(r: KbOracleReports) -> ReportModel {
    match r {
        KbOracleReports::Keyboard(k) => ReportModel {
            is_keyboard: true,
            modifier: k.modifier,
            keycodes: k.keycodes@,
            usage_id: 0,
        },
        KbOracleReports::Consumer(c) => ReportModel {
            is_keyboard: false,
            modifier: 0,
            keycodes: Seq::empty(),
            usage_id: c.usage_id,
        },
    }
}

impl KbOracleReports {
    /// The all-zero keyboard report: the explicit key-up-all signal.
    pub fn init() -> (r: KbOracleReports)
        ensures
            report_model(r) == (ReportModel {
                is_keyboard: true,
                modifier: 0u8,
                keycodes: seq![0u8, 0u8, 0u8, 0u8, 0u8, 0u8],
                usage_id: 0u16,
            }),
    {
        let mut keycodes: Vec<u8> = Vec::new();
        keycodes.push(0);
        keycodes.push(0);
        keycodes.push(0);
        keycodes.push(0);
        keycodes.push(0);
        keycodes.push(0);
        let r = KbOracleReports::Keyboard(
            KeyboardReport { modifier: 0, reserved: 0, leds: 0, keycodes },
        );
        proof {
            assert(report_model(r).keycodes =~= seq![0u8, 0u8, 0u8, 0u8, 0u8, 0u8]);
        }
        r
    }

    /// True when the report says nothing: a keyboard report with a zero
    /// modifier byte and all-zero slots, or a consumer report without a
    /// usage.
    pub fn is_empty(&self) -> (r: bool)
        ensures
            r == spec_report_empty(report_model(*self)),
    {
        match self {
            KbOracleReports::Keyboard(k) => {
                if k.modifier != 0 {
                    return false;
                }
                let mut i: usize = 0;
                #[verifier::loop_isolation(false)]
                while i < k.keycodes.len()
                    invariant
                        i <= k.keycodes@.len(),
                        forall|j: int| 0 <= j < i ==> k.keycodes@[j] == 0,
                    decreases k.keycodes@.len() - i,
                {
                    if k.keycodes[i] != 0 {
                        proof {
                            assert(report_model(*self).keycodes[i as int] != 0);
                        }
                        return false;
                    }
                    i += 1;
                }
                true
            },
            KbOracleReports::Consumer(c) => c.usage_id == 0,
        }
    }
}

/// The temporal log, the retired tickets, and the ticket counter.
pub struct KbOracle {
    pub temporal_logs: Vec<TemporalLogEntry>,
    pub skipped_tickets: Vec<KbOracleTicket>,
    pub current_ticket: KbOracleTicket,
}

impl KbOracle {
    /// The log as a sequence of entry models.
    pub open spec fn log_model(self) -> Seq<LogEntryModel> {
        self.temporal_logs@.map_values(|e: TemporalLogEntry| log_entry_model(e))
    }

    /// Tickets strictly increase along the log and stay below the counter:
    /// a ticket is never reused, only retired.
    pub open spec fn wf(self) -> bool {
        &&& tickets_sorted(self.log_model())
        &&& tickets_below(self.log_model(), self.current_ticket as int)
    }

    /// An oracle with an empty log, no retired tickets, and the counter at
    /// zero.
    pub fn init() -> (r: KbOracle)
        ensures
            r.log_model() =~= Seq::<LogEntryModel>::empty(),
            r.skipped_tickets@ =~= Seq::<KbOracleTicket>::empty(),
            r.current_ticket == 0,
            r.wf(),
    {
        KbOracle { temporal_logs: Vec::new(), skipped_tickets: Vec::new(), current_ticket: 0 }
    }

    /// Empties the log and resets the ticket counter.
    pub fn clear(&mut self)
        ensures
            final(self).log_model() =~= Seq::<LogEntryModel>::empty(),
            final(self).skipped_tickets == old(self).skipped_tickets,
            final(self).current_ticket == 0,
            final(self).wf(),
    {
        self.temporal_logs.clear();
        self.current_ticket = 0;
    }

    /// Reconciles the incoming event against the log and appends it under a
    /// fresh ticket: entries of the layer under the same key code are
    /// renewed, and a bare placeholder or macro key event evicts the bare
    /// placeholders of every layer its own layer byte covers, so the press
    /// order of the switches it stands for leaves no trace in the log.
    pub fn record(&mut self, key_record: (u8, KeyEvent), temporal_log: ActiveKey)
        requires
            old(self).wf(),
            old(self).current_ticket < usize::MAX,
        ensures
            final(self).log_model() == spec_record(
                old(self).log_model(),
                key_record.0,
                key_record.1.0.key,
                temporal_log.1,
                temporal_log.2@,
                old(self).current_ticket,
            ),
            final(self).skipped_tickets == old(self).skipped_tickets,
            final(self).current_ticket == old(self).current_ticket + 1,
            final(self).wf(),
    {
        let (layer, key_event) = key_record;
        let code = key_event.0.key;
        let is_macro_key = layer != 0 && temporal_log.1 != 0 && temporal_log.2.len() > 0;
        let sup_exec = layer != 0 && (code == 0 || is_macro_key);
        let ghost sup = supersedes_bare(layer, code, temporal_log.1, temporal_log.2@);
        let ghost pred = |e: LogEntryModel| record_keep(e, layer, code, sup);
        let ghost old_log = old(self).log_model();

        let mut kept: Vec<TemporalLogEntry> = Vec::new();
        let mut i: usize = 0;
        // walk the log front to back, keeping what reconciliation keeps
        #[verifier::loop_isolation(false)]
        while i < self.temporal_logs.len()
            invariant
                i <= self.temporal_logs@.len(),
                self.temporal_logs == old(self).temporal_logs,
                self.current_ticket == old(self).current_ticket,
                self.log_model() == old_log,
                sup_exec == sup,
                kept@.map_values(|e: TemporalLogEntry| log_entry_model(e)) == keep_filter(
                    old_log.take(i as int),
                    pred,
                ),
            decreases self.temporal_logs@.len() - i,
        {
            proof {
                assert(old_log.take(i + 1).drop_last() =~= old_log.take(i as int));
                assert(old_log.take(i + 1).last() == old_log[i as int]);
                assert(log_entry_model(self.temporal_logs@[i as int]) == old_log[i as int]);
            }
            let keep = !((sup_exec && self.temporal_logs[i].layer != 0
                && self.temporal_logs[i].key_event.0.key == 0 && (self.temporal_logs[i].layer
                | layer) == layer) || (self.temporal_logs[i].layer == layer
                && self.temporal_logs[i].key_event.0.key == code));
            proof {
                assert(keep == pred(old_log[i as int]));
            }
            if keep {
                let entry = clone_entry(&self.temporal_logs[i]);
                kept.push(entry);
                proof {
                    assert(kept@.map_values(|e: TemporalLogEntry| log_entry_model(e)) =~= keep_filter(
                        old_log.take(i as int),
                        pred,
                    ) + seq![old_log[i as int]]);
                }
            } else {
                proof {
                    assert(keep_filter(old_log.take(i + 1), pred) =~= keep_filter(
                        old_log.take(i as int),
                        pred,
                    ));
                }
            }
            i += 1;
        }
        proof {
            assert(old_log.take(old_log.len() as int) =~= old_log);
        }

        let ticket = self.current_ticket;
        let new_entry = TemporalLogEntry {
            ticket,
            layer,
            key_event,
            active_key: temporal_log,
        };
        kept.push(new_entry);
        self.temporal_logs = kept;
        self.current_ticket = ticket + 1;
        proof {
            assert(self.log_model() =~= spec_record(
                old_log,
                layer,
                code,
                new_entry.active_key.1,
                new_entry.active_key.2@,
                ticket,
            ));
            lemma_keep_filter_tickets(old_log, pred, ticket as int);
            assert(tickets_sorted(self.log_model()));
            assert(tickets_below(self.log_model(), self.current_ticket as int));
        }
    }

    /// Drops every log entry of the layer under the same key code. No
    /// ticket bookkeeping happens beyond the removal.
    pub fn remove(&mut self, key_record: (u8, KeyEvent), _temporal_log: ActiveKey)
        requires
            old(self).wf(),
        ensures
            final(self).log_model() == spec_remove(
                old(self).log_model(),
                key_record.0,
                key_record.1.0.key,
            ),
            final(self).skipped_tickets == old(self).skipped_tickets,
            final(self).current_ticket == old(self).current_ticket,
            final(self).wf(),
    {
        let (layer, key_event) = key_record;
        let code = key_event.0.key;
        self.retain_rule(RetainRule::NotLayerCode(layer, code));
        proof {
            lemma_keep_filter_ext(
                old(self).log_model(),
                |e: LogEntryModel| rule_keeps(RetainRule::NotLayerCode(layer, code), e),
                |e: LogEntryModel| !(e.layer == layer && e.code == code),
            );
        }
    }

    /// Drops the log entry that carries the ticket.
    pub fn drop(&mut self, ticket: KbOracleTicket)
        requires
            old(self).wf(),
        ensures
            final(self).log_model() == spec_drop_ticket(old(self).log_model(), ticket),
            final(self).skipped_tickets == old(self).skipped_tickets,
            final(self).current_ticket == old(self).current_ticket,
            final(self).wf(),
    {
        self.retain_rule(RetainRule::NotTicket(ticket));
        proof {
            lemma_keep_filter_ext(
                old(self).log_model(),
                |e: LogEntryModel| rule_keeps(RetainRule::NotTicket(ticket), e),
                |e: LogEntryModel| e.ticket != ticket,
            );
        }
    }

    /// Drops every log entry of the layer.
    pub fn remove_layer(&mut self, layer: u8)
        requires
            old(self).wf(),
        ensures
            final(self).log_model() == spec_remove_layer(old(self).log_model(), layer),
            final(self).skipped_tickets == old(self).skipped_tickets,
            final(self).current_ticket == old(self).current_ticket,
            final(self).wf(),
    {
        self.retain_rule(RetainRule::NotLayer(layer));
        proof {
            lemma_keep_filter_ext(
                old(self).log_model(),
                |e: LogEntryModel| rule_keeps(RetainRule::NotLayer(layer), e),
                |e: LogEntryModel| e.layer != layer,
            );
        }
    }

    /// Keeps the entries the rule keeps, in order.
    fn retain_rule(&mut self, rule: RetainRule)
        requires
            old(self).wf(),
        ensures
            final(self).log_model() == keep_filter(
                old(self).log_model(),
                |e: LogEntryModel| rule_keeps(rule, e),
            ),
            final(self).skipped_tickets == old(self).skipped_tickets,
            final(self).current_ticket == old(self).current_ticket,
            final(self).wf(),
    {
        let ghost old_log = old(self).log_model();
        let ghost pred = |e: LogEntryModel| rule_keeps(rule, e);
        let mut kept: Vec<TemporalLogEntry> = Vec::new();
        let mut i: usize = 0;
        #[verifier::loop_isolation(false)]
        while i < self.temporal_logs.len()
            invariant
                i <= self.temporal_logs@.len(),
                self.temporal_logs == old(self).temporal_logs,
                self.log_model() == old_log,
                kept@.map_values(|e: TemporalLogEntry| log_entry_model(e)) == keep_filter(
                    old_log.take(i as int),
                    pred,
                ),
            decreases self.temporal_logs@.len() - i,
        {
            proof {
                assert(old_log.take(i + 1).drop_last() =~= old_log.take(i as int));
                assert(log_entry_model(self.temporal_logs@[i as int]) == old_log[i as int]);
            }
            let keep = match rule {
                RetainRule::NotLayerCode(layer, code) => !(self.temporal_logs[i].layer == layer
                    && self.temporal_logs[i].key_event.0.key == code),
                RetainRule::NotTicket(ticket) => self.temporal_logs[i].ticket != ticket,
                RetainRule::NotLayer(layer) => self.temporal_logs[i].layer != layer,
            };
            proof {
                assert(keep == pred(old_log[i as int]));
            }
            if keep {
                let entry = clone_entry(&self.temporal_logs[i]);
                kept.push(entry);
                proof {
                    assert(kept@.map_values(|e: TemporalLogEntry| log_entry_model(e)) =~= keep_filter(
                        old_log.take(i as int),
                        pred,
                    ) + seq![old_log[i as int]]);
                }
            } else {
                proof {
                    assert(keep_filter(old_log.take(i + 1), pred) =~= keep_filter(
                        old_log.take(i as int),
                        pred,
                    ));
                }
            }
            i += 1;
        }
        self.temporal_logs = kept;
        proof {
            assert(old_log.take(old_log.len() as int) =~= old_log);
            lemma_keep_filter_tickets(old_log, pred, old(self).current_ticket as int);
        }
    }

    /// A copy of this oracle with the same models.
    pub fn snapshot(&self) -> (r: KbOracle)
        ensures
            r.log_model() == self.log_model(),
            r.skipped_tickets@ == self.skipped_tickets@,
            r.current_ticket == self.current_ticket,
    {
        let mut temporal_logs: Vec<TemporalLogEntry> = Vec::new();
        let mut i: usize = 0;
        #[verifier::loop_isolation(false)]
        while i < self.temporal_logs.len()
            invariant
                i <= self.temporal_logs@.len(),
                temporal_logs@.map_values(|e: TemporalLogEntry| log_entry_model(e))
                    == self.log_model().take(i as int),
            decreases self.temporal_logs@.len() - i,
        {
            proof {
                assert(log_entry_model(self.temporal_logs@[i as int]) == self.log_model()[i as int]);
            }
            temporal_logs.push(clone_entry(&self.temporal_logs[i]));
            proof {
                assert(temporal_logs@.map_values(|e: TemporalLogEntry| log_entry_model(e))
                    =~= self.log_model().take(i + 1));
            }
            i += 1;
        }
        proof {
            assert(self.log_model().take(self.log_model().len() as int) =~= self.log_model());
        }
        let mut skipped_tickets: Vec<KbOracleTicket> = Vec::new();
        let mut j: usize = 0;
        #[verifier::loop_isolation(false)]
        while j < self.skipped_tickets.len()
            invariant
                j <= self.skipped_tickets@.len(),
                skipped_tickets@ == self.skipped_tickets@.take(j as int),
            decreases self.skipped_tickets@.len() - j,
        {
            skipped_tickets.push(self.skipped_tickets[j]);
            proof {
                assert(skipped_tickets@ =~= self.skipped_tickets@.take(j + 1));
            }
            j += 1;
        }
        proof {
            assert(self.skipped_tickets@.take(self.skipped_tickets@.len() as int)
                =~= self.skipped_tickets@);
        }
        KbOracle { temporal_logs, skipped_tickets, current_ticket: self.current_ticket }
    }

    /// Drops the log entry at `index`; an index past the log leaves it
    /// unchanged.
    pub fn drop_index(&mut self, index: usize)
        requires
            old(self).wf(),
        ensures
            final(self).log_model() == spec_drop_index(old(self).log_model(), index as int),
            final(self).skipped_tickets == old(self).skipped_tickets,
            final(self).current_ticket == old(self).current_ticket,
            final(self).wf(),
    {
        if index < self.temporal_logs.len() {
            self.temporal_logs.remove(index);
            proof {
                assert(self.log_model() =~= spec_drop_index(old(self).log_model(), index as int));
            }
        }
    }

    /// Drops the entries whose positions in the log, as it stands at this
    /// call, are listed: structural eviction of exactly the named entries,
    /// with the survivors keeping their order. An index past the log names
    /// nothing.
    pub fn drop_indexes(&mut self, indexes: Vec<usize>)
        requires
            old(self).wf(),
        ensures
            final(self).log_model() == spec_drop_positions(old(self).log_model(), indexes@),
            final(self).skipped_tickets == old(self).skipped_tickets,
            final(self).current_ticket == old(self).current_ticket,
            final(self).wf(),
    {
        let ghost old_log = old(self).log_model();
        let mut kept: Vec<TemporalLogEntry> = Vec::new();
        let mut i: usize = 0;
        #[verifier::loop_isolation(false)]
        while i < self.temporal_logs.len()
            invariant
                i <= self.temporal_logs@.len(),
                self.temporal_logs == old(self).temporal_logs,
                self.current_ticket == old(self).current_ticket,
                self.log_model() == old_log,
                kept@.map_values(|e: TemporalLogEntry| log_entry_model(e)) == spec_drop_positions(
                    old_log.take(i as int),
                    indexes@,
                ),
            decreases self.temporal_logs@.len() - i,
        {
            proof {
                assert(old_log.take(i + 1).drop_last() =~= old_log.take(i as int));
                assert(log_entry_model(self.temporal_logs@[i as int]) == old_log[i as int]);
            }
            let listed = contains_usize(&indexes, i);
            if !listed {
                kept.push(clone_entry(&self.temporal_logs[i]));
                proof {
                    assert(kept@.map_values(|e: TemporalLogEntry| log_entry_model(e))
                        =~= spec_drop_positions(old_log.take(i as int), indexes@) + seq![
                        old_log[i as int],
                    ]);
                }
            } else {
                proof {
                    assert(spec_drop_positions(old_log.take(i + 1), indexes@)
                        =~= spec_drop_positions(old_log.take(i as int), indexes@));
                }
            }
            i += 1;
        }
        self.temporal_logs = kept;
        proof {
            assert(old_log.take(old_log.len() as int) =~= old_log);
            lemma_drop_positions_tickets(old_log, indexes@, old(self).current_ticket as int);
        }
    }
}

/// True when the vector holds at least one consumer entrant.
fn entrants_have_consumer(v: &Vec<KeyboardMapEntrant>) -> (r: bool)
    ensures
        r == has_consumer(v@),
{
    let mut i: usize = 0;
    while i < v.len()
        invariant
            i <= v@.len(),
            forall|j: int| 0 <= j < i ==> !(v@[j] is Consumer),
        decreases v@.len() - i,
    {
        if v[i].is_consumer() {
            return true;
        }
        i += 1;
    }
    false
}

/// True when the vector holds the value; used for retired tickets and for
/// listed log positions alike.
fn contains_usize(v: &Vec<usize>, t: usize) -> (r: bool)
    ensures
        r == v@.contains(t),
{
    let mut i: usize = 0;
    while i < v.len()
        invariant
            i <= v@.len(),
            forall|j: int| 0 <= j < i ==> v@[j] != t,
        decreases v@.len() - i,
    {
        if v[i] == t {
            return true;
        }
        i += 1;
    }
    false
}

/// Appends every entrant of `src` to `dst`.
fn append_entrants(dst: &mut Vec<KeyboardMapEntrant>, src: &Vec<KeyboardMapEntrant>)
    ensures
        final(dst)@ == old(dst)@ + src@,
{
    let mut i: usize = 0;
    #[verifier::loop_isolation(false)]
    while i < src.len()
        invariant
            i <= src@.len(),
            dst@ == old(dst)@ + src@.take(i as int),
        decreases src@.len() - i,
    {
        proof {
            assert(src@.take(i + 1) =~= src@.take(i as int).push(src@[i as int]));
        }
        dst.push(src[i]);
        i += 1;
    }
    proof {
        assert(src@.take(src@.len() as int) =~= src@);
    }
}

impl KbOracle {
    /// Folds the live log into the reports of one tick: the keyboard report
    /// of the live keyboard entrants first, then the consumer report when a
    /// live consumer entry exists, with empty reports discarded. The scan
    /// codes of the tick are accepted for interface fidelity; the live log
    /// alone decides the reports.
    pub fn generate_reports(&self, _for_scan: (Vec<u8>, Vec<u8>)) -> (r: Vec<KbOracleReports>)
        ensures
            r@.map_values(|x: KbOracleReports| report_model(x)) == spec_generate_reports(
                self.log_model(),
                self.skipped_tickets@,
            ),
    {
        let ghost log = self.log_model();
        let ghost skipped = self.skipped_tickets@;

        let mut kb_ents: Vec<KeyboardMapEntrant> = Vec::new();
        let mut cons_ents: Vec<KeyboardMapEntrant> = Vec::new();
        let mut i: usize = 0;
        #[verifier::loop_isolation(false)]
        while i < self.temporal_logs.len()
            invariant
                i <= self.temporal_logs@.len(),
                kb_ents@ == live_keyboard_entrants(log.take(i as int), skipped),
                cons_ents@ == live_consumer_entrants(log.take(i as int), skipped),
            decreases self.temporal_logs@.len() - i,
        {
            proof {
                assert(log.take(i + 1).drop_last() =~= log.take(i as int));
                assert(log_entry_model(self.temporal_logs@[i as int]) == log[i as int]);
            }
            let skipped_has = contains_usize(&self.skipped_tickets, self.temporal_logs[i].ticket);
            if !skipped_has {
                let hc = entrants_have_consumer(&self.temporal_logs[i].active_key.2);
                if hc {
                    append_entrants(&mut cons_ents, &self.temporal_logs[i].active_key.2);
                } else {
                    append_entrants(&mut kb_ents, &self.temporal_logs[i].active_key.2);
                }
            }
            i += 1;
        }
        proof {
            assert(log.take(log.len() as int) =~= log);
        }

        let mut modifier: u8 = 0;
        let mut j: usize = 0;
        #[verifier::loop_isolation(false)]
        while j < kb_ents.len()
            invariant
                j <= kb_ents@.len(),
                modifier == modifier_mask(kb_ents@.take(j as int)),
            decreases kb_ents@.len() - j,
        {
            proof {
                assert(kb_ents@.take(j + 1).drop_last() =~= kb_ents@.take(j as int));
            }
            let bit: u8 = match kb_ents[j] {
                KeyboardMapEntrant::Keyboard(k) => {
                    if KBD_LEFT_CONTROL <= k && k <= KBD_RIGHT_GUI {
                        1u8 << (k - KBD_LEFT_CONTROL)
                    } else {
                        0
                    }
                },
                KeyboardMapEntrant::Consumer(_) => 0,
            };
            proof {
                assert(bit == modifier_bit(kb_ents@[j as int]));
            }
            modifier = modifier | bit;
            j += 1;
        }

        let mut slots: Vec<u8> = Vec::new();
        let mut m: usize = 0;
        #[verifier::loop_isolation(false)]
        while m < kb_ents.len()
            invariant
                m <= kb_ents@.len(),
                slots@ == slot_codes(kb_ents@.take(m as int)),
            decreases kb_ents@.len() - m,
        {
            proof {
                assert(kb_ents@.take(m + 1).drop_last() =~= kb_ents@.take(m as int));
            }
            let canonical = match kb_ents[m] {
                KeyboardMapEntrant::Keyboard(k) => KBD_LEFT_CONTROL <= k && k <= KBD_RIGHT_GUI,
                KeyboardMapEntrant::Consumer(_) => false,
            };
            if !canonical {
                slots.push(kb_ents[m].key_code());
                proof {
                    assert(slots@ =~= slot_codes(kb_ents@.take(m as int)) + seq![
                        entrant_key_code(kb_ents@[m as int]),
                    ]);
                }
            }
            m += 1;
        }
        proof {
            assert(kb_ents@.take(kb_ents@.len() as int) =~= kb_ents@);
        }

        let mut keycodes: Vec<u8> = Vec::new();
        let mut t: usize = 0;
        #[verifier::loop_isolation(false)]
        while t < 6
            invariant
                t <= 6,
                keycodes@.len() == t,
                forall|x: int|
                    0 <= x < t ==> keycodes@[x] == spec_keycode_slots(kb_ents@)[x],
            decreases 6 - t,
        {
            let c: u8 = if t < slots.len() {
                slots[t]
            } else {
                0
            };
            keycodes.push(c);
            t += 1;
        }
        proof {
            assert(keycodes@ =~= spec_keycode_slots(kb_ents@));
        }

        let mut reports: Vec<KbOracleReports> = Vec::new();
        let kb_report = KbOracleReports::Keyboard(
            KeyboardReport { modifier, reserved: 0, leds: 0, keycodes },
        );
        proof {
            assert(report_model(kb_report) == spec_keyboard_report(kb_ents@));
        }
        let keep_kb = !kb_report.is_empty();
        if keep_kb {
            reports.push(kb_report);
        }
        if cons_ents.len() > 0 {
            let usage = cons_ents[0].usage_id();
            if usage != 0 {
                reports.push(KbOracleReports::Consumer(MediaKeyboardReport { usage_id: usage }));
            }
        }
        proof {
            assert(reports@.map_values(|x: KbOracleReports| report_model(x))
                =~= spec_generate_reports(log, skipped));
        }
        reports
    }
}

/// Two logs agree in everything reconciliation and report generation
/// read — layer, key code, scan code and entrants, entry for entry —
/// apart from the tickets.
pub open spec fn logs_match(a: Seq<LogEntryModel>, b: Seq<LogEntryModel>) -> bool {
    &&& a.len() == b.len()
    &&& forall|i: int|
        0 <= i < a.len() ==> ((#[trigger] a[i]).layer == b[i].layer && a[i].code == b[i].code
            && a[i].scan_code == b[i].scan_code && a[i].entrants == b[i].entrants)
}

/// Matching is transitive.
pub proof fn lemma_logs_match_trans(a: Seq<LogEntryModel>, b: Seq<LogEntryModel>, c: Seq<LogEntryModel>)
    requires
        logs_match(a, b),
        logs_match(b, c),
    ensures
        logs_match(a, c),
{
}

/// Reconciliation reads only what matching preserves, so filtering two
/// matching logs with one record predicate keeps matching entries.
proof fn lemma_keep_filter_matching(
    a: Seq<LogEntryModel>,
    b: Seq<LogEntryModel>,
    layer: u8,
    code: u8,
    sup: bool,
)
    requires
        logs_match(a, b),
    ensures
        logs_match(
            keep_filter(a, |e: LogEntryModel| record_keep(e, layer, code, sup)),
            keep_filter(b, |e: LogEntryModel| record_keep(e, layer, code, sup)),
        ),
    decreases a.len(),
{
    let pred = |e: LogEntryModel| record_keep(e, layer, code, sup);
    if a.len() > 0 {
        assert forall|i: int| 0 <= i < a.len() - 1 implies ((#[trigger] a.drop_last()[i]).layer
            == b.drop_last()[i].layer && a.drop_last()[i].code == b.drop_last()[i].code
            && a.drop_last()[i].scan_code == b.drop_last()[i].scan_code
            && a.drop_last()[i].entrants == b.drop_last()[i].entrants) by {
            assert(a[i].layer == b[i].layer && a[i].code == b[i].code && a[i].scan_code
                == b[i].scan_code && a[i].entrants == b[i].entrants);
        }
        lemma_keep_filter_matching(a.drop_last(), b.drop_last(), layer, code, sup);
        assert(a[a.len() - 1].layer == b[b.len() - 1].layer && a[a.len() - 1].code == b[b.len()
            - 1].code);
        assert(pred(a.last()) == pred(b.last()));
        let fa = keep_filter(a, pred);
        let fb = keep_filter(b, pred);
        let pa = keep_filter(a.drop_last(), pred);
        let pb = keep_filter(b.drop_last(), pred);
        assert forall|i: int| 0 <= i < fa.len() implies ((#[trigger] fa[i]).layer == fb[i].layer
            && fa[i].code == fb[i].code && fa[i].scan_code == fb[i].scan_code && fa[i].entrants
            == fb[i].entrants) by {
            if i < pa.len() {
                assert(fa[i] == pa[i]);
                assert(fb[i] == pb[i]);
            } else {
                assert(fa[i] == a.last());
                assert(fb[i] == b.last());
                assert(a[a.len() - 1].scan_code == b[b.len() - 1].scan_code);
                assert(a[a.len() - 1].entrants == b[b.len() - 1].entrants);
            }
        }
    }
}

/// Recording one event into two matching logs leaves matching logs,
/// whatever tickets the two recordings hand out.
pub proof fn lemma_record_on_matching_logs(
    a: Seq<LogEntryModel>,
    b: Seq<LogEntryModel>,
    layer: u8,
    code: u8,
    scan_code: u8,
    entrants: Seq<KeyboardMapEntrant>,
    ta: KbOracleTicket,
    tb: KbOracleTicket,
)
    requires
        logs_match(a, b),
    ensures
        logs_match(
            spec_record(a, layer, code, scan_code, entrants, ta),
            spec_record(b, layer, code, scan_code, entrants, tb),
        ),
{
    let sup = supersedes_bare(layer, code, scan_code, entrants);
    lemma_keep_filter_matching(a, b, layer, code, sup);
}

/// No duplicate entrants: recording an unchanged `(layer, key code)` again
/// leaves the log that one recording leaves, entry for entry, apart from
/// the ticket of the final entry. The repeated key therefore owns one log
/// entry, never two.
pub proof fn lemma_record_repeat_collapses(
    log: Seq<LogEntryModel>,
    layer: u8,
    code: u8,
    scan_code: u8,
    entrants: Seq<KeyboardMapEntrant>,
    t1: KbOracleTicket,
    t2: KbOracleTicket,
    t3: KbOracleTicket,
)
    ensures
        logs_match(
            spec_record(
                spec_record(log, layer, code, scan_code, entrants, t1),
                layer,
                code,
                scan_code,
                entrants,
                t2,
            ),
            spec_record(log, layer, code, scan_code, entrants, t3),
        ),
{
    let sup = supersedes_bare(layer, code, scan_code, entrants);
    let pred = |e: LogEntryModel| record_keep(e, layer, code, sup);
    let kept = keep_filter(log, pred);
    let n1 = LogEntryModel { ticket: t1, layer, code, scan_code, entrants };
    let first = kept.push(n1);
    assert(first.drop_last() =~= kept);
    assert(!pred(n1));
    assert(keep_filter(first, pred) =~= keep_filter(kept, pred));
    lemma_keep_filter_idempotent(log, pred);
    let twice = spec_record(
        spec_record(log, layer, code, scan_code, entrants, t1),
        layer,
        code,
        scan_code,
        entrants,
        t2,
    );
    let once = spec_record(log, layer, code, scan_code, entrants, t3);
    assert(twice =~= kept.push(LogEntryModel { ticket: t2, layer, code, scan_code, entrants }));
    assert(once =~= kept.push(LogEntryModel { ticket: t3, layer, code, scan_code, entrants }));
}

/// Two logs whose entries carry the same entrants feed the report
/// generator the same keyboard and consumer entrant sequences, as long as
/// no ticket is retired.
pub proof fn lemma_pointwise_same_entrants(a: Seq<LogEntryModel>, b: Seq<LogEntryModel>)
    requires
        a.len() == b.len(),
        forall|i: int| 0 <= i < a.len() ==> (#[trigger] a[i]).entrants == b[i].entrants,
    ensures
        live_keyboard_entrants(a, Seq::empty()) == live_keyboard_entrants(b, Seq::empty()),
        live_consumer_entrants(a, Seq::empty()) == live_consumer_entrants(b, Seq::empty()),
    decreases a.len(),
{
    if a.len() > 0 {
        assert forall|i: int| 0 <= i < a.len() - 1 implies (#[trigger] a.drop_last()[i]).entrants
            == b.drop_last()[i].entrants by {
            assert(a[i].entrants == b[i].entrants);
        }
        lemma_pointwise_same_entrants(a.drop_last(), b.drop_last());
        assert(a[a.len() - 1].entrants == b[b.len() - 1].entrants);
        assert(!Seq::<KbOracleTicket>::empty().contains(a.last().ticket));
        assert(!Seq::<KbOracleTicket>::empty().contains(b.last().ticket));
    }
}

/// No duplicate entrants, seen at the reports: with no retired tickets, the
/// reports after recording an unchanged key twice equal the reports after
/// recording it once.
pub proof fn lemma_record_repeat_reports(
    log: Seq<LogEntryModel>,
    layer: u8,
    code: u8,
    scan_code: u8,
    entrants: Seq<KeyboardMapEntrant>,
    t1: KbOracleTicket,
    t2: KbOracleTicket,
    t3: KbOracleTicket,
)
    ensures
        spec_generate_reports(
            spec_record(
                spec_record(log, layer, code, scan_code, entrants, t1),
                layer,
                code,
                scan_code,
                entrants,
                t2,
            ),
            Seq::empty(),
        ) == spec_generate_reports(spec_record(log, layer, code, scan_code, entrants, t3), Seq::empty()),
{
    lemma_record_repeat_collapses(log, layer, code, scan_code, entrants, t1, t2, t3);
    lemma_pointwise_same_entrants(
        spec_record(
            spec_record(log, layer, code, scan_code, entrants, t1),
            layer,
            code,
            scan_code,
            entrants,
            t2,
        ),
        spec_record(log, layer, code, scan_code, entrants, t3),
    );
}

/// The log after `n` recordings of one unchanged event, under the given
/// tickets, applied in order.
pub open spec fn spec_record_many(
    log: Seq<LogEntryModel>,
    layer: u8,
    code: u8,
    scan_code: u8,
    entrants: Seq<KeyboardMapEntrant>,
    tickets: Seq<KbOracleTicket>,
) -> Seq<LogEntryModel>
    decreases tickets.len(),
{
    if tickets.len() == 0 {
        log
    } else {
        spec_record(
            spec_record_many(log, layer, code, scan_code, entrants, tickets.drop_last()),
            layer,
            code,
            scan_code,
            entrants,
            tickets.last(),
        )
    }
}

/// No duplicate entrants, for any number of repeats: recording an
/// unchanged `(layer, key code)` any positive number of times leaves the
/// log that one recording leaves, entry for entry, apart from tickets.
pub proof fn lemma_record_many_collapses(
    log: Seq<LogEntryModel>,
    layer: u8,
    code: u8,
    scan_code: u8,
    entrants: Seq<KeyboardMapEntrant>,
    tickets: Seq<KbOracleTicket>,
    t: KbOracleTicket,
)
    requires
        tickets.len() >= 1,
    ensures
        logs_match(
            spec_record_many(log, layer, code, scan_code, entrants, tickets),
            spec_record(log, layer, code, scan_code, entrants, t),
        ),
    decreases tickets.len(),
{
    let many = spec_record_many(log, layer, code, scan_code, entrants, tickets);
    let once = spec_record(log, layer, code, scan_code, entrants, t);
    if tickets.len() == 1 {
        assert(tickets.drop_last().len() == 0);
        assert(spec_record_many(log, layer, code, scan_code, entrants, tickets.drop_last())
            == log);
        assert(many == spec_record(log, layer, code, scan_code, entrants, tickets.last()));
        assert(logs_match(log, log));
        lemma_record_on_matching_logs(log, log, layer, code, scan_code, entrants, tickets.last(), t);
    } else {
        lemma_record_many_collapses(log, layer, code, scan_code, entrants, tickets.drop_last(), t);
        let prev = spec_record_many(log, layer, code, scan_code, entrants, tickets.drop_last());
        lemma_record_on_matching_logs(
            prev,
            once,
            layer,
            code,
            scan_code,
            entrants,
            tickets.last(),
            t,
        );
        lemma_record_repeat_collapses(log, layer, code, scan_code, entrants, t, t, t);
        lemma_logs_match_trans(
            many,
            spec_record(once, layer, code, scan_code, entrants, t),
            once,
        );
    }
}

/// No duplicate entrants at the reports, for any number of repeats: with no
/// retired tickets, the reports after any positive number of recordings of
/// one unchanged key equal the reports after a single recording, so the
/// repeated key never occupies an extra keycode slot.
pub proof fn lemma_record_many_reports(
    log: Seq<LogEntryModel>,
    layer: u8,
    code: u8,
    scan_code: u8,
    entrants: Seq<KeyboardMapEntrant>,
    tickets: Seq<KbOracleTicket>,
    t: KbOracleTicket,
)
    requires
        tickets.len() >= 1,
    ensures
        spec_generate_reports(
            spec_record_many(log, layer, code, scan_code, entrants, tickets),
            Seq::empty(),
        ) == spec_generate_reports(spec_record(log, layer, code, scan_code, entrants, t), Seq::empty()),
{
    lemma_record_many_collapses(log, layer, code, scan_code, entrants, tickets, t);
    lemma_pointwise_same_entrants(
        spec_record_many(log, layer, code, scan_code, entrants, tickets),
        spec_record(log, layer, code, scan_code, entrants, t),
    );
}

/// Macro eviction: after recording a macro key event, no bare placeholder
/// entry of a layer the macro's own layer covers — its own layer included —
/// remains in the log, so no stale placeholder's entrants can reach the
/// next generated report.
pub proof fn lemma_record_macro_evicts(
    log: Seq<LogEntryModel>,
    layer: u8,
    code: u8,
    scan_code: u8,
    entrants: Seq<KeyboardMapEntrant>,
    ticket: KbOracleTicket,
)
    requires
        is_macro_event(layer, scan_code, entrants),
        code != 0,
    ensures
        forall|i: int|
            0 <= i < spec_record(log, layer, code, scan_code, entrants, ticket).len()
                ==> !((#[trigger] spec_record(log, layer, code, scan_code, entrants, ticket)[i]).layer
                != 0 && (spec_record(log, layer, code, scan_code, entrants, ticket)[i].layer
                | layer) == layer && spec_record(log, layer, code, scan_code, entrants, ticket)[i].code
                == 0),
{
    let sup = supersedes_bare(layer, code, scan_code, entrants);
    let pred = |e: LogEntryModel| record_keep(e, layer, code, sup);
    lemma_keep_filter_pred(log, pred);
    let result = spec_record(log, layer, code, scan_code, entrants, ticket);
    let kept = keep_filter(log, pred);
    assert forall|i: int| 0 <= i < result.len() implies !((#[trigger] result[i]).layer != 0 && (
    result[i].layer | layer) == layer && result[i].code == 0) by {
        if i < kept.len() {
            assert(result[i] == kept[i]);
            assert(pred(kept[i]));
        } else {
            assert(result[i].code == code);
        }
    }
}

/// Report shape bound: the keycode slots of a keyboard report are exactly
/// six, filled in encounter order with the non-modifier keycodes and
/// zero-padded; entrants past the sixth slot are dropped.
pub proof fn lemma_report_shape(s: Seq<KeyboardMapEntrant>)
    ensures
        spec_keyboard_report(s).keycodes.len() == 6,
        forall|i: int|
            0 <= i < 6 ==> spec_keyboard_report(s).keycodes[i] == (if i < slot_codes(s).len() {
                slot_codes(s)[i]
            } else {
                0
            }),
{
}

/// Every entrant of the sequence is a canonical modifier keycode.
pub open spec fn all_canonical_modifiers(s: Seq<KeyboardMapEntrant>) -> bool {
    forall|i: int| 0 <= i < s.len() ==> is_canonical_modifier(#[trigger] s[i])
}

/// The modifier byte distributes over concatenation.
pub proof fn lemma_modifier_mask_add(a: Seq<KeyboardMapEntrant>, b: Seq<KeyboardMapEntrant>)
    ensures
        modifier_mask(a + b) == modifier_mask(a) | modifier_mask(b),
    decreases b.len(),
{
    if b.len() == 0 {
        assert(a + b =~= a);
        let x = modifier_mask(a);
        assert(x | 0 == x) by (bit_vector);
    } else {
        assert((a + b).drop_last() =~= a + b.drop_last());
        lemma_modifier_mask_add(a, b.drop_last());
        let x = modifier_mask(a);
        let y = modifier_mask(b.drop_last());
        let z = modifier_bit(b.last());
        assert((x | y) | z == x | (y | z)) by (bit_vector);
    }
}

/// The slot codes distribute over concatenation.
pub proof fn lemma_slot_codes_add(a: Seq<KeyboardMapEntrant>, b: Seq<KeyboardMapEntrant>)
    ensures
        slot_codes(a + b) == slot_codes(a) + slot_codes(b),
    decreases b.len(),
{
    if b.len() == 0 {
        assert(a + b =~= a);
        assert(slot_codes(a) + slot_codes(b) =~= slot_codes(a));
    } else {
        assert((a + b).drop_last() =~= a + b.drop_last());
        lemma_slot_codes_add(a, b.drop_last());
        assert(slot_codes(a + b) =~= slot_codes(a) + slot_codes(b));
    }
}

/// A sequence of canonical modifiers contributes no keycode slot.
pub proof fn lemma_slot_codes_canonical_empty(s: Seq<KeyboardMapEntrant>)
    requires
        all_canonical_modifiers(s),
    ensures
        slot_codes(s) == Seq::<u8>::empty(),
    decreases s.len(),
{
    if s.len() > 0 {
        assert(is_canonical_modifier(s[s.len() - 1]));
        assert(all_canonical_modifiers(s.drop_last()));
        lemma_slot_codes_canonical_empty(s.drop_last());
        assert(slot_codes(s) =~= Seq::<u8>::empty());
    }
}

/// Order independence of modifiers: two modifier chains whose bits the
/// combined layer entry already carries produce the same keyboard report
/// around a shared combined entry and character entrants, whichever of the
/// two was pressed first.
pub proof fn lemma_modifier_order_independent(
    ea: Seq<KeyboardMapEntrant>,
    eb: Seq<KeyboardMapEntrant>,
    eab: Seq<KeyboardMapEntrant>,
    ek: Seq<KeyboardMapEntrant>,
)
    requires
        all_canonical_modifiers(ea),
        all_canonical_modifiers(eb),
        all_canonical_modifiers(eab),
        modifier_mask(ea) | modifier_mask(eab) == modifier_mask(eab),
        modifier_mask(eb) | modifier_mask(eab) == modifier_mask(eab),
    ensures
        spec_keyboard_report(ea + eab + ek) == spec_keyboard_report(eb + eab + ek),
{
    lemma_modifier_mask_add(ea, eab);
    lemma_modifier_mask_add(eb, eab);
    lemma_modifier_mask_add(ea + eab, ek);
    lemma_modifier_mask_add(eb + eab, ek);
    let ma = modifier_mask(ea);
    let mb = modifier_mask(eb);
    let mab = modifier_mask(eab);
    let mk = modifier_mask(ek);
    assert(ma | mab == mab ==> (ma | mab) | mk == mab | mk) by (bit_vector);
    assert(mb | mab == mab ==> (mb | mab) | mk == mab | mk) by (bit_vector);

    lemma_slot_codes_canonical_empty(ea);
    lemma_slot_codes_canonical_empty(eb);
    lemma_slot_codes_canonical_empty(eab);
    lemma_slot_codes_add(ea, eab);
    lemma_slot_codes_add(eb, eab);
    lemma_slot_codes_add(ea + eab, ek);
    lemma_slot_codes_add(eb + eab, ek);
    assert(slot_codes(ea + eab + ek) =~= slot_codes(ek));
    assert(slot_codes(eb + eab + ek) =~= slot_codes(ek));
    assert(spec_keycode_slots(ea + eab + ek) =~= spec_keycode_slots(eb + eab + ek));
}

} // verus!
