use a2pi::driver::KbDriver;
use a2pi::kbmap::KBD_LEFT_GUI;
use a2pi::kbmap::hid::KBD_A;
use a2pi::kbmap::hid::KBD_L;
use a2pi::kbmap::hid::KBD_N;
use a2pi::oracle::KbOracleReports;

fn keyboard_parts(reports: &[KbOracleReports]) -> (u8, Vec<u8>) {
    for r in reports {
        if let KbOracleReports::Keyboard(k) = r {
            return (k.modifier, k.keycodes.clone());
        }
    }
    panic!("no keyboard report");
}

#[test]
fn idle_tick_emits_the_single_all_zero_report() {
    // empty-clear: no modifier and no character codes active
    let mut driver = KbDriver::init();
    let reports = driver.process_key_event(vec![], vec![]).expect("a tick always answers");
    assert_eq!(reports.len(), 1);
    match &reports[0] {
        KbOracleReports::Keyboard(k) => {
            assert_eq!(k.modifier, 0);
            assert!(k.keycodes.iter().all(|&c| c == 0));
        }
        _ => panic!("the clear signal is a keyboard report"),
    }
}

#[test]
fn idle_tick_clears_prior_state() {
    let mut driver = KbDriver::init();
    driver.process_key_event(vec![0x01], vec![]).unwrap();
    assert!(!driver.key_state.oracle.temporal_logs.is_empty());
    driver.process_key_event(vec![], vec![]).unwrap();
    assert!(driver.key_state.oracle.temporal_logs.is_empty());
}

#[test]
fn bare_modifier_sets_its_bit() {
    let mut driver = KbDriver::init();
    let reports = driver.process_key_event(vec![0x01], vec![]).unwrap();
    let (modifier, keycodes) = keyboard_parts(&reports);
    assert_eq!(modifier, 0x01, "left control bit");
    assert!(keycodes.iter().all(|&c| c == 0));
}

#[test]
fn plain_character_reports_its_keycode() {
    let mut driver = KbDriver::init();
    let reports = driver.process_key_event(vec![], vec![0x20]).unwrap();
    let (modifier, keycodes) = keyboard_parts(&reports);
    assert_eq!(modifier, 0);
    assert_eq!(keycodes, vec![KBD_A, 0, 0, 0, 0, 0]);
}

#[test]
fn modifier_order_is_irrelevant_to_the_final_report() {
    // order independence: control then shift, against shift then control,
    // with the A key joining last
    let run = |first: u8, second: u8| -> (u8, Vec<u8>) {
        let mut driver = KbDriver::init();
        driver.process_key_event(vec![first], vec![]).unwrap();
        driver.process_key_event(vec![first, second], vec![]).unwrap();
        let reports = driver.process_key_event(vec![first, second], vec![0x20]).unwrap();
        keyboard_parts(&reports)
    };
    let (mod_ab, keys_ab) = run(0x01, 0x04);
    let (mod_ba, keys_ba) = run(0x04, 0x01);
    assert_eq!(mod_ab, mod_ba);
    assert_eq!(keys_ab, keys_ba);
    assert_eq!(mod_ab, 0x03, "control and shift bits");
    assert_eq!(keys_ab, vec![KBD_A, 0, 0, 0, 0, 0]);
}

#[test]
fn combined_layer_supersedes_single_modifier_placeholders() {
    // open apple then shift, against shift then open apple, with the mapped
    // combo at layer 0x44 joining on the third tick: the single modifier's
    // placeholder is superseded when the combined layer records, so the
    // press order leaves no trace
    let run = |first: u8, second: u8| -> (u8, Vec<u8>, usize) {
        let mut driver = KbDriver::init();
        driver.process_key_event(vec![first], vec![]).unwrap();
        driver.process_key_event(vec![first, second], vec![]).unwrap();
        let reports = driver.process_key_event(vec![first, second], vec![0x29]).unwrap();
        let (m, k) = keyboard_parts(&reports);
        (m, k, driver.key_state.oracle.temporal_logs.len())
    };
    let (mod_ab, keys_ab, len_ab) = run(0x40, 0x04);
    let (mod_ba, keys_ba, len_ba) = run(0x04, 0x40);
    assert_eq!(mod_ab, mod_ba);
    assert_eq!(keys_ab, keys_ba);
    assert_eq!(len_ab, len_ba);
    assert_eq!(mod_ab, 0x04, "left alt bit from the combo's own entrant");
    assert_eq!(keys_ab, vec![KBD_L, 0, 0, 0, 0, 0]);
}

#[test]
fn one_tick_combo_supersedes_the_single_modifier_placeholder() {
    // the second switch and the combo character arrive within one tick
    let run = |single: u8| -> (u8, Vec<u8>) {
        let mut driver = KbDriver::init();
        driver.process_key_event(vec![single], vec![]).unwrap();
        let reports = driver.process_key_event(vec![0x40, 0x04], vec![0x29]).unwrap();
        keyboard_parts(&reports)
    };
    let (mod_a, keys_a) = run(0x40);
    let (mod_b, keys_b) = run(0x04);
    assert_eq!(mod_a, mod_b);
    assert_eq!(keys_a, keys_b);
    assert_eq!(mod_a, 0x04, "no stale alt or shift bit survives");
}

#[test]
fn macro_combo_drops_the_bare_placeholder_from_the_next_report() {
    // macro eviction through the whole pipeline: hold closed apple, then
    // press the N combo
    let mut driver = KbDriver::init();
    let reports = driver.process_key_event(vec![0x80], vec![]).unwrap();
    let (modifier, _) = keyboard_parts(&reports);
    assert_eq!(modifier, 0x08, "bare layer reports the GUI bit");
    let reports = driver.process_key_event(vec![0x80], vec![0x6e]).unwrap();
    let (modifier, keycodes) = keyboard_parts(&reports);
    assert_eq!(modifier, 0x08, "the combo's own GUI entrant");
    assert_eq!(keycodes, vec![KBD_N, 0, 0, 0, 0, 0]);
    assert_eq!(
        driver.key_state.oracle.temporal_logs.len(),
        1,
        "only the combo entry remains in the log"
    );
}

#[test]
fn shifted_remap_reports_only_its_own_entrants() {
    // closed apple + H remaps to the left arrow without the GUI bit
    let mut driver = KbDriver::init();
    driver.process_key_event(vec![0x80], vec![]).unwrap();
    let reports = driver.process_key_event(vec![0x80], vec![0x23]).unwrap();
    let (modifier, keycodes) = keyboard_parts(&reports);
    assert_eq!(modifier, 0);
    assert_eq!(keycodes, vec![0x50, 0, 0, 0, 0, 0], "left arrow keycode");
}

#[test]
fn unmapped_character_at_a_layer_falls_back_to_the_base_layer() {
    // layer 0x01 has no character table entries; the A key still types
    let mut driver = KbDriver::init();
    let reports = driver.process_key_event(vec![0x01], vec![0x20]).unwrap();
    let (modifier, keycodes) = keyboard_parts(&reports);
    assert_eq!(modifier, 0x01);
    assert_eq!(keycodes[0], KBD_A);
}

#[test]
fn unmapped_character_is_not_an_error() {
    let mut driver = KbDriver::init();
    // 0x7F maps nowhere at any layer: nothing is recorded, the tick still
    // answers, and the next tick proceeds normally
    let reports = driver.process_key_event(vec![0x01], vec![0x7F]).unwrap();
    assert!(reports.is_empty());
    let reports = driver.process_key_event(vec![0x01], vec![]).unwrap();
    let (modifier, _) = keyboard_parts(&reports);
    assert_eq!(modifier, 0x01);
}

#[test]
fn held_keys_do_not_accumulate_over_ticks() {
    // no duplicate entrants across re-scans of a held key
    let mut driver = KbDriver::init();
    for _ in 0..5 {
        driver.process_key_event(vec![], vec![0x20]).unwrap();
    }
    let reports = driver.process_key_event(vec![], vec![0x20]).unwrap();
    let (_, keycodes) = keyboard_parts(&reports);
    assert_eq!(keycodes.iter().filter(|&&c| c == KBD_A).count(), 1);
}

#[test]
fn consumer_combo_reports_through_the_driver() {
    let mut driver = KbDriver::init();
    driver.process_key_event(vec![0x80], vec![]).unwrap();
    let reports = driver.process_key_event(vec![0x80], vec![0x07]).unwrap();
    let consumer: Vec<u16> = reports
        .iter()
        .filter_map(|r| match r {
            KbOracleReports::Consumer(c) => Some(c.usage_id),
            _ => None,
        })
        .collect();
    assert_eq!(consumer, vec![0xB4], "rewind usage id");
}

#[test]
fn hid_report_list_stays_empty() {
    let driver = KbDriver::init();
    assert!(driver.hid_report().is_empty());
}

#[test]
fn gui_bit_comes_from_the_left_gui_keycode() {
    assert_eq!(1u8 << (KBD_LEFT_GUI - 0xE0), 0x08);
}
