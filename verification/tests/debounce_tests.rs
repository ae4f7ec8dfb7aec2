use a2pi::debounce::Debounce;
use a2pi::debounce::NUM_COLS;
use a2pi::debounce::NUM_MODS;
use a2pi::debounce::NUM_ROWS;

fn empty_mods() -> Vec<bool> {
    vec![false; NUM_MODS]
}

fn empty_matrix() -> Vec<Vec<bool>> {
    vec![vec![false; NUM_ROWS]; NUM_COLS]
}

#[test]
fn fresh_debouncer_reports_everything_released() {
    let mut d = Debounce::new(3);
    let (mods, matrix) = d.report_and_tick(&empty_mods(), &empty_matrix());
    assert!(mods.iter().all(|&m| !m));
    assert!(matrix.iter().all(|col| col.iter().all(|&c| !c)));
}

#[test]
fn press_reports_immediately() {
    let mut d = Debounce::new(3);
    let mut raw = empty_matrix();
    raw[2][5] = true;
    let mut mods = empty_mods();
    mods[1] = true;
    let (dm, dx) = d.report_and_tick(&mods, &raw);
    assert!(dm[1]);
    assert!(dx[2][5]);
    assert!(!dx[0][0]);
}

#[test]
fn release_holds_for_expiration_ticks() {
    // debounce idempotence: after one active tick, the pressed signal
    // survives expiration - 1 release ticks and drops on the next
    let expiration = 4u8;
    let mut d = Debounce::new(expiration);
    let mut raw = empty_matrix();
    raw[1][1] = true;
    let (_, dx) = d.report_and_tick(&empty_mods(), &raw);
    assert!(dx[1][1]);
    for _ in 0..(expiration - 1) {
        let (_, dx) = d.report_and_tick(&empty_mods(), &empty_matrix());
        assert!(dx[1][1], "released key flickered inside the window");
    }
    let (_, dx) = d.report_and_tick(&empty_mods(), &empty_matrix());
    assert!(!dx[1][1], "released key still pressed after the window");
}

#[test]
fn bounce_within_window_reads_as_one_press() {
    let mut d = Debounce::new(3);
    let mut raw = empty_matrix();
    raw[0][0] = true;
    let (_, dx) = d.report_and_tick(&empty_mods(), &raw);
    assert!(dx[0][0]);
    // bounce: released for one tick, re-pressed on the next
    let (_, dx) = d.report_and_tick(&empty_mods(), &empty_matrix());
    assert!(dx[0][0]);
    let (_, dx) = d.report_and_tick(&empty_mods(), &raw);
    assert!(dx[0][0]);
}

#[test]
fn modifier_release_holds_like_keys() {
    let expiration = 2u8;
    let mut d = Debounce::new(expiration);
    let mut mods = empty_mods();
    mods[4] = true;
    let (dm, _) = d.report_and_tick(&mods, &empty_matrix());
    assert!(dm[4]);
    let (dm, _) = d.report_and_tick(&empty_mods(), &empty_matrix());
    assert!(dm[4]);
    let (dm, _) = d.report_and_tick(&empty_mods(), &empty_matrix());
    assert!(!dm[4]);
}
