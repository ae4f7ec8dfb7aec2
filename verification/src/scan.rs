//! Decoding of a debounced scan snapshot into scan codes. A snapshot holds
//! one bit per modifier switch and one per matrix cell; decoding yields the
//! modifier scan codes of the active switches and the character scan code
//! `column * 16 + row` of every active cell.

use vstd::prelude::*;

use crate::debounce::NUM_COLS;
use crate::debounce::NUM_MODS;
use crate::debounce::NUM_ROWS;

verus! {

/// The modifier scan code of physical switch `idx`: switch 0 is the closed
/// Apple key, 1 the open Apple key, 2 Control, 3 Reset, 4 Shift. Any index
/// past the known switches decodes to zero.
pub open spec fn switch_code(idx: int) -> u8 {
    if idx == 0 {
        0x80
    } else if idx == 1 {
        0x40
    } else if idx == 2 {
        0x01
    } else if idx == 3 {
        0x02
    } else if idx == 4 {
        0x04
    } else {
        0x00
    }
}

/// The modifier scan codes of the active switches, in switch order.
pub open spec fn spec_modifier_codes(mods: Seq<bool>) -> Seq<u8>
    decreases mods.len(),
{
    if mods.len() == 0 {
        Seq::empty()
    } else {
        spec_modifier_codes(mods.drop_last()) + if mods.last() {
            seq![switch_code(mods.len() - 1)]
        } else {
            Seq::empty()
        }
    }
}

/// The character scan codes of one column: `col * 16 + row` for every active
/// row bit, in row order.
pub open spec fn spec_column_codes(col: int, rows: Seq<bool>) -> Seq<u8>
    decreases rows.len(),
{
    if rows.len() == 0 {
        Seq::empty()
    } else {
        spec_column_codes(col, rows.drop_last()) + if rows.last() {
            seq![(col * 16 + (rows.len() - 1)) as u8]
        } else {
            Seq::empty()
        }
    }
}

/// The character scan codes of the whole matrix, column-major.
pub open spec fn spec_character_codes(matrix: Seq<Seq<bool>>) -> Seq<u8>
    decreases matrix.len(),
{
    if matrix.len() == 0 {
        Seq::empty()
    } else {
        spec_character_codes(matrix.drop_last()) + spec_column_codes(
            matrix.len() - 1,
            matrix.last(),
        )
    }
}

/// The matrix bits as a sequence of row-bit sequences.
pub open spec fn matrix_view(m: Seq<Vec<bool>>) -> Seq<Seq<bool>> {
    m.map_values(|v: Vec<bool>| v@)
}

/// A debounced scan snapshot: the modifier bits and the matrix bits of one
/// tick.
pub struct KeyScan {
    pub mods: Vec<bool>,
    pub matrix: Vec<Vec<bool>>,
}

/// Scan codes sorted by kind after decoding a snapshot.
pub enum KeyScanDecoder {
    Modifiers(Vec<u8>),
    Characters(Vec<u8>),
}

impl KeyScanDecoder {
    /// The carried scan codes, whichever kind they are.
    pub fn into_codes(self) -> (r: Vec<u8>)
        ensures
            self matches KeyScanDecoder::Modifiers(m) ==> r == m,
            self matches KeyScanDecoder::Characters(c) ==> r == c,
    {
        match self {
            KeyScanDecoder::Modifiers(modifiers) => modifiers,
            KeyScanDecoder::Characters(characters) => characters,
        }
    }
}

impl KeyScan {
    /// The snapshot has the fixed scan geometry.
    pub open spec fn wf(self) -> bool {
        &&& self.mods@.len() == NUM_MODS
        &&& self.matrix@.len() == NUM_COLS
        &&& forall|c: int| 0 <= c < NUM_COLS ==> (#[trigger] self.matrix@[c])@.len() == NUM_ROWS
    }

    /// Wraps a debounced snapshot.
    pub fn new(mods: Vec<bool>, matrix: Vec<Vec<bool>>) -> (r: KeyScan)
        ensures
            r.mods == mods,
            r.matrix == matrix,
    {
        KeyScan { mods, matrix }
    }

    /// Decodes the snapshot into the modifier scan codes of the active
    /// switches and the character scan codes of the active matrix cells.
    pub fn into_decoder(self) -> (r: (KeyScanDecoder, KeyScanDecoder))
        requires
            self.wf(),
        ensures
            r.0 matches KeyScanDecoder::Modifiers(m) && m@ == spec_modifier_codes(self.mods@),
            r.1 matches KeyScanDecoder::Characters(c) && c@ == spec_character_codes(
                matrix_view(self.matrix@),
            ),
    {
        let mut modifiers: Vec<u8> = Vec::new();
        let mut i: usize = 0;
        while i < NUM_MODS
            invariant
                i <= NUM_MODS,
                self.mods@.len() == NUM_MODS,
                modifiers@ == spec_modifier_codes(self.mods@.take(i as int)),
            decreases NUM_MODS - i,
        {
            proof {
                assert(self.mods@.take(i + 1).drop_last() =~= self.mods@.take(i as int));
            }
            if self.mods[i] {
                let code: u8 = if i == 0 {
                    0x80
                } else if i == 1 {
                    0x40
                } else if i == 2 {
                    0x01
                } else if i == 3 {
                    0x02
                } else if i == 4 {
                    0x04
                } else {
                    0x00
                };
                modifiers.push(code);
            }
            i += 1;
        }
        proof {
            assert(self.mods@.take(NUM_MODS as int) =~= self.mods@);
        }

        let mut characters: Vec<u8> = Vec::new();
        let mut col: usize = 0;
        while col < NUM_COLS
            invariant
                col <= NUM_COLS,
                self.wf(),
                characters@ == spec_character_codes(matrix_view(self.matrix@).take(col as int)),
            decreases NUM_COLS - col,
        {
            let mut row: usize = 0;
            while row < NUM_ROWS
                invariant
                    row <= NUM_ROWS,
                    col < NUM_COLS,
                    self.wf(),
                    characters@ == spec_character_codes(matrix_view(self.matrix@).take(col as int))
                        + spec_column_codes(col as int, self.matrix@[col as int]@.take(row as int)),
                decreases NUM_ROWS - row,
            {
                proof {
                    assert(self.matrix@[col as int]@.take(row + 1).drop_last()
                        =~= self.matrix@[col as int]@.take(row as int));
                }
                if self.matrix[col][row] {
                    characters.push((col * 16 + row) as u8);
                }
                row += 1;
            }
            proof {
                assert(self.matrix@[col as int]@.take(NUM_ROWS as int) =~= self.matrix@[col as int]@);
                assert(matrix_view(self.matrix@).take(col + 1).drop_last() =~= matrix_view(
                    self.matrix@,
                ).take(col as int));
            }
            col += 1;
        }
        proof {
            assert(matrix_view(self.matrix@).take(NUM_COLS as int) =~= matrix_view(self.matrix@));
        }

        (KeyScanDecoder::Modifiers(modifiers), KeyScanDecoder::Characters(characters))
    }
}

/// A placeholder for a single decoder pin.
pub struct DecoderPin {}

/// A decoder pin matrix snapshot, kept as plain pin words.
pub struct DecoderMatix {
    pub pins: Vec<Vec<u64>>,
}

impl DecoderMatix {
    /// Reads an empty pin snapshot.
    pub fn read_pins() -> (r: DecoderMatix)
        ensures
            r.pins@.len() == 0,
    {
        DecoderMatix { pins: Vec::new() }
    }
}

} // verus!
