use a2pi::input::KbDriverInput;
use a2pi::kbmap::Key;
use a2pi::kbmap::KeyboardMapEntrant;
use a2pi::kbmap::KBD_LEFT_GUI;
use a2pi::kbmap::hid::CON_REWIND;
use a2pi::kbmap::hid::KBD_A;
use a2pi::kbmap::hid::KBD_N;
use a2pi::oracle::KbOracle;
use a2pi::oracle::KbOracleReports;

fn key(down: u8, up: u8, entrants: Vec<KeyboardMapEntrant>) -> Key {
    Key::define(down, up, entrants)
}

fn record(oracle: &mut KbOracle, layer: u8, k: Key) {
    let scan = k.key;
    let entrants = k.usb_hid.clone();
    oracle.record((layer, (k, KbDriverInput::KeyDown)), (layer, scan, entrants));
}

fn keyboard_parts(reports: &[KbOracleReports]) -> (u8, Vec<u8>) {
    for r in reports {
        if let KbOracleReports::Keyboard(k) = r {
            return (k.modifier, k.keycodes.clone());
        }
    }
    panic!("no keyboard report");
}

fn consumer_usage(reports: &[KbOracleReports]) -> Option<u16> {
    for r in reports {
        if let KbOracleReports::Consumer(c) = r {
            return Some(c.usage_id);
        }
    }
    None
}

#[test]
fn empty_oracle_reports_nothing() {
    let oracle = KbOracle::init();
    let reports = oracle.generate_reports((vec![], vec![]));
    assert!(reports.is_empty());
}

#[test]
fn recorded_key_reaches_the_report() {
    let mut oracle = KbOracle::init();
    record(&mut oracle, 0x00, key(0x20, 0x20, vec![KeyboardMapEntrant::Keyboard(KBD_A)]));
    let reports = oracle.generate_reports((vec![], vec![0x20]));
    let (modifier, keycodes) = keyboard_parts(&reports);
    assert_eq!(modifier, 0);
    assert_eq!(keycodes, vec![KBD_A, 0, 0, 0, 0, 0]);
}

#[test]
fn repeated_record_keeps_one_entry() {
    // no duplicate entrants: an unchanged key recorded again and again
    let mut oracle = KbOracle::init();
    for _ in 0..4 {
        record(&mut oracle, 0x00, key(0x20, 0x20, vec![KeyboardMapEntrant::Keyboard(KBD_A)]));
    }
    assert_eq!(oracle.temporal_logs.len(), 1);
    let (_, keycodes) = keyboard_parts(&oracle.generate_reports((vec![], vec![0x20])));
    assert_eq!(keycodes.iter().filter(|&&c| c == KBD_A).count(), 1);
}

#[test]
fn tickets_keep_increasing_over_repeats() {
    let mut oracle = KbOracle::init();
    record(&mut oracle, 0x00, key(0x20, 0x20, vec![KeyboardMapEntrant::Keyboard(KBD_A)]));
    record(&mut oracle, 0x00, key(0x20, 0x20, vec![KeyboardMapEntrant::Keyboard(KBD_A)]));
    assert_eq!(oracle.current_ticket, 2);
    assert_eq!(oracle.temporal_logs[0].ticket, 1);
}

#[test]
fn macro_key_evicts_the_bare_placeholder() {
    // macro eviction: bare-down(0x80, 0x00) then combo-down(0x80, 0x6e)
    let mut oracle = KbOracle::init();
    record(&mut oracle, 0x80, key(0x00, 0x00, vec![KeyboardMapEntrant::Keyboard(KBD_LEFT_GUI)]));
    record(
        &mut oracle,
        0x80,
        key(0x6e, 0xee, vec![
            KeyboardMapEntrant::Keyboard(KBD_LEFT_GUI),
            KeyboardMapEntrant::Keyboard(KBD_N),
        ]),
    );
    assert_eq!(oracle.temporal_logs.len(), 1, "bare placeholder must be evicted");
    let reports = oracle.generate_reports((vec![0x80], vec![0x6e]));
    let (modifier, keycodes) = keyboard_parts(&reports);
    assert_eq!(modifier, 0x08, "left GUI bit alone");
    assert_eq!(keycodes, vec![KBD_N, 0, 0, 0, 0, 0]);
}

#[test]
fn combined_bare_record_supersedes_covered_placeholders() {
    // the bare placeholder of a combined layer evicts the placeholders of
    // every layer its bits cover
    let mut oracle = KbOracle::init();
    record(&mut oracle, 0x01, key(0x00, 0x00, vec![KeyboardMapEntrant::Keyboard(0xE0)]));
    record(&mut oracle, 0x04, key(0x00, 0x00, vec![KeyboardMapEntrant::Keyboard(0xE1)]));
    assert_eq!(oracle.temporal_logs.len(), 2);
    record(&mut oracle, 0x05, key(0x00, 0x00, vec![
        KeyboardMapEntrant::Keyboard(0xE0),
        KeyboardMapEntrant::Keyboard(0xE1),
    ]));
    assert_eq!(oracle.temporal_logs.len(), 1, "both covered placeholders go");
    assert_eq!(oracle.temporal_logs[0].layer, 0x05);
}

#[test]
fn unrelated_layers_survive_a_record() {
    let mut oracle = KbOracle::init();
    record(&mut oracle, 0x01, key(0x00, 0x00, vec![KeyboardMapEntrant::Keyboard(0xE0)]));
    record(&mut oracle, 0x04, key(0x00, 0x00, vec![KeyboardMapEntrant::Keyboard(0xE1)]));
    assert_eq!(oracle.temporal_logs.len(), 2);
}

#[test]
fn remove_drops_matching_entries_only() {
    let mut oracle = KbOracle::init();
    record(&mut oracle, 0x00, key(0x20, 0x20, vec![KeyboardMapEntrant::Keyboard(KBD_A)]));
    record(&mut oracle, 0x00, key(0x35, 0x35, vec![KeyboardMapEntrant::Keyboard(KBD_N)]));
    oracle.remove(
        (0x00, (key(0x20, 0x20, vec![]), KbDriverInput::KeyUp)),
        (0x00, 0x20, vec![]),
    );
    assert_eq!(oracle.temporal_logs.len(), 1);
    let (_, keycodes) = keyboard_parts(&oracle.generate_reports((vec![], vec![])));
    assert_eq!(keycodes[0], KBD_N);
}

#[test]
fn drop_removes_by_ticket_and_drop_index_by_position() {
    let mut oracle = KbOracle::init();
    record(&mut oracle, 0x00, key(0x20, 0x20, vec![KeyboardMapEntrant::Keyboard(KBD_A)]));
    record(&mut oracle, 0x00, key(0x35, 0x35, vec![KeyboardMapEntrant::Keyboard(KBD_N)]));
    let first_ticket = oracle.temporal_logs[0].ticket;
    oracle.drop(first_ticket);
    assert_eq!(oracle.temporal_logs.len(), 1);
    oracle.drop_index(0);
    assert!(oracle.temporal_logs.is_empty());
    // an index past the log leaves it alone
    oracle.drop_index(5);
    assert!(oracle.temporal_logs.is_empty());
}

#[test]
fn drop_indexes_evicts_by_original_position() {
    let mut oracle = KbOracle::init();
    for code in [0x20u8, 0x21, 0x22] {
        record(&mut oracle, 0x00, key(code, code, vec![KeyboardMapEntrant::Keyboard(code)]));
    }
    // exactly the entries at the listed pre-call positions go; no index
    // shifts onto a survivor
    oracle.drop_indexes(vec![0, 1]);
    assert_eq!(oracle.temporal_logs.len(), 1);
    assert_eq!(oracle.temporal_logs[0].key_event.0.key, 0x22);
}

#[test]
fn drop_indexes_ignores_repeats_and_out_of_range_positions() {
    let mut oracle = KbOracle::init();
    for code in [0x20u8, 0x21] {
        record(&mut oracle, 0x00, key(code, code, vec![KeyboardMapEntrant::Keyboard(code)]));
    }
    oracle.drop_indexes(vec![1, 1, 9]);
    assert_eq!(oracle.temporal_logs.len(), 1);
    assert_eq!(oracle.temporal_logs[0].key_event.0.key, 0x20);
}

#[test]
fn clear_resets_log_and_ticket_counter() {
    let mut oracle = KbOracle::init();
    record(&mut oracle, 0x00, key(0x20, 0x20, vec![KeyboardMapEntrant::Keyboard(KBD_A)]));
    oracle.clear();
    assert!(oracle.temporal_logs.is_empty());
    assert_eq!(oracle.current_ticket, 0);
}

#[test]
fn report_slots_truncate_at_six_in_log_order() {
    // report shape bound: eight simultaneous keys, six slots
    let mut oracle = KbOracle::init();
    let codes = [0x10u8, 0x11, 0x12, 0x13, 0x14, 0x15, 0x16, 0x17];
    for (i, &c) in codes.iter().enumerate() {
        record(
            &mut oracle,
            0x00,
            key(0x20 + i as u8, 0x20 + i as u8, vec![KeyboardMapEntrant::Keyboard(c)]),
        );
    }
    let (_, keycodes) = keyboard_parts(&oracle.generate_reports((vec![], vec![])));
    assert_eq!(keycodes.len(), 6);
    assert_eq!(keycodes, vec![0x10, 0x11, 0x12, 0x13, 0x14, 0x15]);
}

#[test]
fn consumer_entries_produce_a_consumer_report() {
    let mut oracle = KbOracle::init();
    record(&mut oracle, 0x80, key(0x07, 0x07, vec![KeyboardMapEntrant::Consumer(CON_REWIND)]));
    let reports = oracle.generate_reports((vec![0x80], vec![0x07]));
    assert_eq!(reports.len(), 1, "empty keyboard report is discarded");
    assert_eq!(consumer_usage(&reports), Some(CON_REWIND));
}

#[test]
fn keyboard_report_comes_before_consumer_report() {
    let mut oracle = KbOracle::init();
    record(&mut oracle, 0x80, key(0x07, 0x07, vec![KeyboardMapEntrant::Consumer(CON_REWIND)]));
    record(&mut oracle, 0x00, key(0x20, 0x20, vec![KeyboardMapEntrant::Keyboard(KBD_A)]));
    let reports = oracle.generate_reports((vec![], vec![]));
    assert_eq!(reports.len(), 2);
    assert!(matches!(reports[0], KbOracleReports::Keyboard(_)));
    assert!(matches!(reports[1], KbOracleReports::Consumer(_)));
}

#[test]
fn retired_tickets_leave_the_report() {
    let mut oracle = KbOracle::init();
    record(&mut oracle, 0x00, key(0x20, 0x20, vec![KeyboardMapEntrant::Keyboard(KBD_A)]));
    let ticket = oracle.temporal_logs[0].ticket;
    oracle.skipped_tickets.push(ticket);
    let reports = oracle.generate_reports((vec![], vec![]));
    assert!(reports.is_empty());
}

#[test]
fn modifier_entrants_set_bits_not_slots() {
    let mut oracle = KbOracle::init();
    record(&mut oracle, 0x05, key(0x00, 0x00, vec![
        KeyboardMapEntrant::Keyboard(0xE0),
        KeyboardMapEntrant::Keyboard(0xE1),
    ]));
    let (modifier, keycodes) = keyboard_parts(&oracle.generate_reports((vec![], vec![])));
    assert_eq!(modifier, 0x03);
    assert_eq!(keycodes, vec![0, 0, 0, 0, 0, 0]);
}

#[test]
fn empty_report_helpers() {
    let empty = KbOracleReports::init();
    assert!(empty.is_empty());
    if let KbOracleReports::Keyboard(k) = &empty {
        assert_eq!(k.modifier, 0);
        assert_eq!(k.reserved, 0);
        assert_eq!(k.leds, 0);
        assert_eq!(k.keycodes, vec![0, 0, 0, 0, 0, 0]);
    } else {
        panic!("init must be a keyboard report");
    }
}
