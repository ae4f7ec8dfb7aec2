//! Tick-based, allocation-light key debouncer. It is "eager": a press is
//! reported on the tick it is seen, and only the release signal is delayed,
//! so a key released and re-pressed within the expiration window reads as one
//! continuous press.

use vstd::prelude::*;

verus! {

/// Columns of the key matrix.
pub const NUM_COLS: usize = 8;

/// Rows of the key matrix.
pub const NUM_ROWS: usize = 10;

/// Physical modifier switches.
pub const NUM_MODS: usize = 5;

/// One debounce step of a single counter: an active raw reading reloads the
/// counter to the expiration; an inactive one counts down, stopping at zero.
pub open spec fn counter_step(counter: u8, raw: bool, expiration: u8) -> u8 {
    if raw {
        expiration
    } else if counter > 0 {
        (counter - 1) as u8
    } else {
        0
    }
}

/// The counter left after `k` further ticks with the raw reading inactive.
pub open spec fn counter_after_release(counter: u8, k: nat, expiration: u8) -> u8
    decreases k,
{
    if k == 0 {
        counter
    } else {
        counter_step(counter_after_release(counter, (k - 1) as nat, expiration), false, expiration)
    }
}

/// Per-key and per-modifier countdown state. A key reads "pressed" exactly
/// while its counter is non-zero.
pub struct Debounce {
    countdown_matrix: Vec<Vec<u8>>,
    mods_countdown_matrix: Vec<u8>,
    expiration_ticks: u8,
}

impl Debounce {
    /// The matrix and modifier vector have the fixed scan geometry, and no
    /// counter exceeds the expiration: a countdown is reloaded to the
    /// expiration and only ever decremented, never raised past it.
    pub closed spec fn wf(self) -> bool {
        &&& self.countdown_matrix@.len() == NUM_COLS
        &&& forall|c: int|
            0 <= c < NUM_COLS ==> (#[trigger] self.countdown_matrix@[c])@.len() == NUM_ROWS
        &&& self.mods_countdown_matrix@.len() == NUM_MODS
        &&& forall|c: int, w: int|
            0 <= c < NUM_COLS && 0 <= w < NUM_ROWS ==> #[trigger] self.countdown_matrix@[c]@[w]
                <= self.expiration_ticks
        &&& forall|m: int|
            0 <= m < NUM_MODS ==> #[trigger] self.mods_countdown_matrix@[m]
                <= self.expiration_ticks
    }

    /// The invariant carried by every well-formed debouncer: each counter
    /// sits at or below the expiration.
    pub proof fn lemma_counters_bounded(self)
        requires
            self.wf(),
        ensures
            forall|c: int, w: int|
                0 <= c < NUM_COLS && 0 <= w < NUM_ROWS ==> #[trigger] self.matrix_counter(c, w)
                    <= self.expiration(),
            forall|m: int|
                0 <= m < NUM_MODS ==> #[trigger] self.mod_counter(m) <= self.expiration(),
    {
    }

    /// The countdown of the matrix cell at `(col, row)`.
    pub closed spec fn matrix_counter(self, col: int, row: int) -> u8 {
        self.countdown_matrix@[col]@[row]
    }

    /// The countdown of modifier switch `m`.
    pub closed spec fn mod_counter(self, m: int) -> u8 {
        self.mods_countdown_matrix@[m]
    }

    /// The configured expiration, in ticks.
    pub closed spec fn expiration(self) -> u8 {
        self.expiration_ticks
    }

    /// Creates a debouncer with every counter at zero, so that every key
    /// initially reads released.
    pub fn new(expiration_ticks: u8) -> (r: Debounce)
        ensures
            r.wf(),
            r.expiration() == expiration_ticks,
            forall|c: int, w: int|
                0 <= c < NUM_COLS && 0 <= w < NUM_ROWS ==> #[trigger] r.matrix_counter(c, w) == 0,
            forall|m: int| 0 <= m < NUM_MODS ==> #[trigger] r.mod_counter(m) == 0,
    {
        let mut matrix: Vec<Vec<u8>> = Vec::new();
        while matrix.len() < NUM_COLS
            invariant
                matrix@.len() <= NUM_COLS,
                forall|c: int|
                    0 <= c < matrix@.len() ==> (#[trigger] matrix@[c])@ =~= Seq::new(
                        NUM_ROWS as nat,
                        |w: int| 0u8,
                    ),
            decreases NUM_COLS - matrix.len(),
        {
            let mut col: Vec<u8> = Vec::new();
            while col.len() < NUM_ROWS
                invariant
                    col@.len() <= NUM_ROWS,
                    forall|w: int| 0 <= w < col@.len() ==> col@[w] == 0,
                decreases NUM_ROWS - col.len(),
            {
                col.push(0);
            }
            proof {
                assert(col@ =~= Seq::new(NUM_ROWS as nat, |w: int| 0u8));
            }
            matrix.push(col);
        }
        let mut mods: Vec<u8> = Vec::new();
        while mods.len() < NUM_MODS
            invariant
                mods@.len() <= NUM_MODS,
                forall|m: int| 0 <= m < mods@.len() ==> mods@[m] == 0,
            decreases NUM_MODS - mods.len(),
        {
            mods.push(0);
        }
        Debounce { countdown_matrix: matrix, mods_countdown_matrix: mods, expiration_ticks }
    }

    /// Feeds one raw scan through the debouncer. Every counter takes one
    /// `counter_step`, and each output bit is true exactly when the new
    /// counter is non-zero.
    pub fn report_and_tick(
        &mut self,
        modifier_dimm: &Vec<bool>,
        report_matrix: &Vec<Vec<bool>>,
    ) -> (r: (Vec<bool>, Vec<Vec<bool>>))
        requires
            old(self).wf(),
            modifier_dimm@.len() == NUM_MODS,
            report_matrix@.len() == NUM_COLS,
            forall|c: int| 0 <= c < NUM_COLS ==> (#[trigger] report_matrix@[c])@.len() == NUM_ROWS,
        ensures
            final(self).wf(),
            final(self).expiration() == old(self).expiration(),
            forall|m: int|
                0 <= m < NUM_MODS ==> #[trigger] final(self).mod_counter(m) == counter_step(
                    old(self).mod_counter(m),
                    modifier_dimm@[m],
                    old(self).expiration(),
                ),
            forall|c: int, w: int|
                0 <= c < NUM_COLS && 0 <= w < NUM_ROWS ==> #[trigger] final(self).matrix_counter(
                    c,
                    w,
                ) == counter_step(
                    old(self).matrix_counter(c, w),
                    report_matrix@[c]@[w],
                    old(self).expiration(),
                ),
            r.0@.len() == NUM_MODS,
            forall|m: int|
                0 <= m < NUM_MODS ==> #[trigger] r.0@[m] == (final(self).mod_counter(m) != 0),
            r.1@.len() == NUM_COLS,
            forall|c: int| 0 <= c < NUM_COLS ==> (#[trigger] r.1@[c])@.len() == NUM_ROWS,
            forall|c: int, w: int|
                0 <= c < NUM_COLS && 0 <= w < NUM_ROWS ==> #[trigger] r.1@[c]@[w] == (final(self).matrix_counter(c, w) != 0),
    {
        let expiration = self.expiration_ticks;
        let mut debounced_dimm: Vec<bool> = Vec::new();
        let mut m: usize = 0;
        while m < NUM_MODS
            invariant
                self.wf(),
                self.expiration_ticks == expiration,
                m <= NUM_MODS,
                modifier_dimm@.len() == NUM_MODS,
                self.countdown_matrix@ == old(self).countdown_matrix@,
                forall|i: int|
                    m <= i < NUM_MODS ==> #[trigger] self.mods_countdown_matrix@[i] == old(
                        self,
                    ).mods_countdown_matrix@[i],
                forall|i: int|
                    0 <= i < m ==> #[trigger] self.mods_countdown_matrix@[i] == counter_step(
                        old(self).mod_counter(i),
                        modifier_dimm@[i],
                        expiration,
                    ),
                debounced_dimm@.len() == m,
                forall|i: int|
                    0 <= i < m ==> #[trigger] debounced_dimm@[i] == (
                    self.mods_countdown_matrix@[i] != 0),
            decreases NUM_MODS - m,
        {
            let current = self.mods_countdown_matrix[m];
            let next = if modifier_dimm[m] {
                expiration
            } else if current > 0 {
                current - 1
            } else {
                0
            };
            self.mods_countdown_matrix.set(m, next);
            debounced_dimm.push(next != 0);
            m += 1;
        }

        let mut debounced_matrix: Vec<Vec<bool>> = Vec::new();
        let mut col: usize = 0;
        while col < NUM_COLS
            invariant
                self.wf(),
                self.expiration_ticks == expiration,
                col <= NUM_COLS,
                report_matrix@.len() == NUM_COLS,
                forall|c: int|
                    0 <= c < NUM_COLS ==> (#[trigger] report_matrix@[c])@.len() == NUM_ROWS,
                modifier_dimm@.len() == NUM_MODS,
                forall|i: int|
                    0 <= i < NUM_MODS ==> #[trigger] self.mods_countdown_matrix@[i] == counter_step(
                        old(self).mod_counter(i),
                        modifier_dimm@[i],
                        expiration,
                    ),
                debounced_dimm@.len() == NUM_MODS,
                forall|i: int|
                    0 <= i < NUM_MODS ==> #[trigger] debounced_dimm@[i] == (
                    self.mods_countdown_matrix@[i] != 0),
                forall|c: int|
                    col <= c < NUM_COLS ==> #[trigger] self.countdown_matrix@[c] == old(
                        self,
                    ).countdown_matrix@[c],
                forall|c: int, w: int|
                    0 <= c < col && 0 <= w < NUM_ROWS ==> #[trigger] self.countdown_matrix@[c]@[w]
                        == counter_step(
                        old(self).matrix_counter(c, w),
                        report_matrix@[c]@[w],
                        expiration,
                    ),
                debounced_matrix@.len() == col,
                forall|c: int| 0 <= c < col ==> (#[trigger] debounced_matrix@[c])@.len() == NUM_ROWS,
                forall|c: int, w: int|
                    0 <= c < col && 0 <= w < NUM_ROWS ==> #[trigger] debounced_matrix@[c]@[w] == (
                    self.countdown_matrix@[c]@[w] != 0),
            decreases NUM_COLS - col,
        {
            let mut out_col: Vec<bool> = Vec::new();
            let mut row: usize = 0;
            let mut new_col: Vec<u8> = Vec::new();
            while row < NUM_ROWS
                invariant
                    row <= NUM_ROWS,
                    col < NUM_COLS,
                    self.wf(),
                    self.expiration_ticks == expiration,
                    report_matrix@.len() == NUM_COLS,
                    forall|c: int|
                        0 <= c < NUM_COLS ==> (#[trigger] report_matrix@[c])@.len() == NUM_ROWS,
                    new_col@.len() == row,
                    out_col@.len() == row,
                    forall|w: int|
                        0 <= w < row ==> #[trigger] new_col@[w] == counter_step(
                            self.countdown_matrix@[col as int]@[w],
                            report_matrix@[col as int]@[w],
                            expiration,
                        ),
                    forall|w: int| 0 <= w < row ==> #[trigger] new_col@[w] <= expiration,
                    forall|w: int| 0 <= w < row ==> #[trigger] out_col@[w] == (new_col@[w] != 0),
                decreases NUM_ROWS - row,
            {
                let current = self.countdown_matrix[col][row];
                let next = if report_matrix[col][row] {
                    expiration
                } else if current > 0 {
                    current - 1
                } else {
                    0
                };
                new_col.push(next);
                out_col.push(next != 0);
                row += 1;
            }
            self.countdown_matrix.set(col, new_col);
            debounced_matrix.push(out_col);
            col += 1;
        }

        (debounced_dimm, debounced_matrix)
    }
}

/// The counter left after feeding a whole raw sequence, one tick per bit.
pub open spec fn counter_after_seq(counter: u8, raw: Seq<bool>, expiration: u8) -> u8
    decreases raw.len(),
{
    if raw.len() == 0 {
        counter
    } else {
        counter_step(counter_after_seq(counter, raw.drop_last(), expiration), raw.last(), expiration)
    }
}

/// The length of the inactive run a raw sequence ends in.
pub open spec fn trailing_inactive(raw: Seq<bool>) -> nat
    decreases raw.len(),
{
    if raw.len() == 0 {
        0
    } else if raw.last() {
        0
    } else {
        trailing_inactive(raw.drop_last()) + 1
    }
}

/// Debounce idempotence: once a raw input has been active for at least one
/// tick (its counter reloaded to the expiration), the debounced "pressed"
/// signal stays true for every one of the first `expiration - 1` release
/// ticks that follow; the signal cannot flicker within the expiration window.
pub proof fn lemma_debounce_holds_after_release(expiration: u8, k: nat)
    requires
        expiration >= 1,
        k < expiration,
    ensures
        counter_after_release(expiration, k, expiration) == expiration - k,
        counter_after_release(expiration, k, expiration) != 0,
    decreases k,
{
    if k > 0 {
        lemma_debounce_holds_after_release(expiration, (k - 1) as nat);
    }
}

/// The release signal arrives exactly when the window ends: after
/// `expiration` or more release ticks the debounced signal reads released.
pub proof fn lemma_debounce_releases_after_window(expiration: u8, k: nat)
    requires
        k >= expiration,
    ensures
        counter_after_release(expiration, k, expiration) == 0,
    decreases k,
{
    if k > 0 {
        if k - 1 >= expiration {
            lemma_debounce_releases_after_window(expiration, (k - 1) as nat);
        } else {
            if expiration >= 1 {
                lemma_debounce_holds_after_release(expiration, (k - 1) as nat);
            }
        }
    }
}

/// A run of inactive ticks is the constant-inactive raw sequence: the two
/// forms of the release window agree, so the hold and no-flicker laws
/// speak of the same countdown.
pub proof fn lemma_release_run_is_inactive_seq(counter: u8, k: nat, expiration: u8)
    ensures
        counter_after_release(counter, k, expiration) == counter_after_seq(
            counter,
            Seq::new(k, |i: int| false),
            expiration,
        ),
    decreases k,
{
    let raw = Seq::new(k, |i: int| false);
    if k > 0 {
        lemma_release_run_is_inactive_seq(counter, (k - 1) as nat, expiration);
        assert(raw.drop_last() =~= Seq::new((k - 1) as nat, |i: int| false));
        assert(raw.last() == false);
    }
}

/// No flicker across a whole raw sequence: starting from a reloaded
/// counter, the counter never falls further below the expiration than the
/// length of the current inactive run. A raw input whose every pause
/// between presses is shorter than the expiration therefore reads pressed
/// at every tick of the sequence — a release-and-repress inside the window
/// is one continuous press.
pub proof fn lemma_debounce_no_flicker(raw: Seq<bool>, expiration: u8)
    requires
        expiration >= 1,
    ensures
        counter_after_seq(expiration, raw, expiration) as int >= expiration - trailing_inactive(
            raw,
        ),
        trailing_inactive(raw) < expiration ==> counter_after_seq(expiration, raw, expiration)
            != 0,
    decreases raw.len(),
{
    if raw.len() > 0 {
        lemma_debounce_no_flicker(raw.drop_last(), expiration);
    }
}

} // verus!
