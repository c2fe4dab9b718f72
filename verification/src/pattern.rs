//! The pattern table: four fixed 5x5 binary bitmaps, one per button state.
//! A cell is `true` where the LED at that row and column should light.

use vstd::prelude::*;

use crate::state::ButtonState;

verus! {

/// A 5x5 grid of binary cells, indexed by row then column.
#[derive(Clone, Copy, PartialEq, Eq, Debug)]
pub struct Pattern {
    pub cells: [[bool; 5]; 5],
}

/// Whether the cell at row `r`, column `c` is lit in the bitmap for state
/// `s`: a horizontal bar at row 2, plus a vertical bar at column 1 for a
/// left press and at column 3 for a right press.
pub open spec fn lit_in(s: ButtonState, r: int, c: int) -> bool {
    match s {
        ButtonState::Both => r == 2 || ((c == 1 || c == 3) && 1 <= r && r <= 3),
        ButtonState::Left => r == 2 || (c == 1 && 1 <= r && r <= 3),
        ButtonState::Right => r == 2 || (c == 3 && 1 <= r && r <= 3),
        ButtonState::Neither => false,
    }
}

/// Whether `p` is the bitmap for state `s`, cell by cell.
pub open spec fn pattern_matches(p: Pattern, s: ButtonState) -> bool {
    forall|r: int, c: int| 0 <= r < 5 && 0 <= c < 5 ==> #[trigger] p.cells[r][c] == lit_in(s, r, c)
}

/// The bitmap to render for a button state.
pub fn pattern_for(s: ButtonState) -> (p: Pattern)
    ensures
        pattern_matches(p, s),
{
    let p = match s {
        ButtonState::Both => Pattern {
            cells: [
                [false, false, false, false, false],
                [false, true, false, true, false],
                [true, true, true, true, true],
                [false, true, false, true, false],
                [false, false, false, false, false],
            ],
        },
        ButtonState::Left => Pattern {
            cells: [
                [false, false, false, false, false],
                [false, true, false, false, false],
                [true, true, true, true, true],
                [false, true, false, false, false],
                [false, false, false, false, false],
            ],
        },
        ButtonState::Right => Pattern {
            cells: [
                [false, false, false, false, false],
                [false, false, false, true, false],
                [true, true, true, true, true],
                [false, false, false, true, false],
                [false, false, false, false, false],
            ],
        },
        ButtonState::Neither => Pattern {
            cells: [
                [false, false, false, false, false],
                [false, false, false, false, false],
                [false, false, false, false, false],
                [false, false, false, false, false],
                [false, false, false, false, false],
            ],
        },
    };
    assert(pattern_matches(p, s));
    p
}

} // verus!
