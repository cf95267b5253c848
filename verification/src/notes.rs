//! The fixed pitch table: integer frequencies in Hz for four octaves of the
//! twelve-tone scale, plus a thirteenth "rest" entry per octave whose
//! near-zero frequency marks silence. Rows are octave offsets 0 to 3
//! (absolute octaves 4 to 7); columns are the pitch classes C, C#, D, D#, E,
//! F, F#, G, G#, A, A#, B, rest.

use vstd::prelude::*;

verus! {

/// Number of pitch-class columns per octave row, the rest entry included.
pub open spec fn pitch_classes() -> int {
    13
}

/// Number of octave rows in the table.
pub open spec fn octave_rows() -> int {
    4
}

/// The compiled-in table itself.
pub open spec fn pitch_table() -> Seq<Seq<u32>> {
    seq![
        seq![262u32, 277, 294, 311, 330, 349, 370, 392, 415, 440, 466, 494, 1],
        seq![523u32, 554, 587, 622, 659, 698, 740, 784, 831, 880, 932, 988, 1],
        seq![1046u32, 1109, 1175, 1245, 1319, 1397, 1480, 1568, 1661, 1760, 1865, 1976, 1],
        seq![2093u32, 2217, 2349, 2489, 2637, 2794, 2960, 3136, 3322, 3520, 3729, 3951, 1],
    ]
}

/// The frequency at octave row `row` and pitch class `col`.
pub open spec fn pitch_freq(row: int, col: int) -> u32 {
    pitch_table()[row][col]
}

/// Looks a frequency up in the pitch table.
pub fn note_freq(row: usize, col: usize) -> (f: u32)
    requires
        row < octave_rows(),
        col < pitch_classes(),
    ensures
        f == pitch_freq(row as int, col as int),
{
    let row0: [u32; 13] = [262, 277, 294, 311, 330, 349, 370, 392, 415, 440, 466, 494, 1];
    let row1: [u32; 13] = [523, 554, 587, 622, 659, 698, 740, 784, 831, 880, 932, 988, 1];
    let row2: [u32; 13] = [1046, 1109, 1175, 1245, 1319, 1397, 1480, 1568, 1661, 1760, 1865, 1976,
        1];
    let row3: [u32; 13] = [2093, 2217, 2349, 2489, 2637, 2794, 2960, 3136, 3322, 3520, 3729, 3951,
        1];
    if row == 0 {
        row0[col]
    } else if row == 1 {
        row1[col]
    } else if row == 2 {
        row2[col]
    } else {
        row3[col]
    }
}

} // verus!
