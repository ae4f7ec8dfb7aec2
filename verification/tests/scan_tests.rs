use a2pi::debounce::NUM_COLS;
use a2pi::debounce::NUM_MODS;
use a2pi::debounce::NUM_ROWS;
use a2pi::scan::DecoderMatix;
use a2pi::scan::KeyScan;
use a2pi::scan::KeyScanDecoder;

fn decode(mods: Vec<bool>, matrix: Vec<Vec<bool>>) -> (Vec<u8>, Vec<u8>) {
    let scan = KeyScan::new(mods, matrix);
    let (m, c) = scan.into_decoder();
    (m.into_codes(), c.into_codes())
}

#[test]
fn empty_snapshot_decodes_to_no_codes() {
    let (mods, chars) = decode(vec![false; NUM_MODS], vec![vec![false; NUM_ROWS]; NUM_COLS]);
    assert!(mods.is_empty());
    assert!(chars.is_empty());
}

#[test]
fn modifier_switches_map_to_their_bit_values() {
    // switch order: closed Apple, open Apple, Control, Reset, Shift
    let (mods, _) = decode(vec![true, true, true, true, true], vec![
        vec![false; NUM_ROWS];
        NUM_COLS
    ]);
    assert_eq!(mods, vec![0x80, 0x40, 0x01, 0x02, 0x04]);
}

#[test]
fn single_modifier_decodes_alone() {
    let (mods, _) = decode(vec![false, false, true, false, false], vec![
        vec![false; NUM_ROWS];
        NUM_COLS
    ]);
    assert_eq!(mods, vec![0x01]);
}

#[test]
fn character_cells_decode_to_column_times_16_plus_row() {
    let mut matrix = vec![vec![false; NUM_ROWS]; NUM_COLS];
    matrix[0][0] = true;
    matrix[2][5] = true;
    matrix[7][9] = true;
    let (_, chars) = decode(vec![false; NUM_MODS], matrix);
    assert_eq!(chars, vec![0x00, 2 * 16 + 5, 7 * 16 + 9]);
}

#[test]
fn decoder_wrappers_hand_their_codes_back() {
    let m = KeyScanDecoder::Modifiers(vec![0x80]);
    let c = KeyScanDecoder::Characters(vec![0x11, 0x12]);
    assert_eq!(m.into_codes(), vec![0x80]);
    assert_eq!(c.into_codes(), vec![0x11, 0x12]);
}

#[test]
fn pin_snapshot_starts_empty() {
    let pins = DecoderMatix::read_pins();
    assert!(pins.pins.is_empty());
}
