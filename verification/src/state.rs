//! The discrete state of the two push-buttons and the mapping from raw
//! electrical levels to it. Pressed is electrically low on this board.

use vstd::prelude::*;

verus! {

/// One variant per combination of the two buttons' levels.
#[derive(Clone, Copy, PartialEq, Eq, Structural, Debug)]
pub enum ButtonState {
    Both,
    Left,
    Right,
    Neither,
}

/// The state that a pair of input levels denotes: a button is pressed exactly
/// when its line is low.
pub open spec fn state_of_levels(left_low: bool, right_low: bool) -> ButtonState {
    if left_low && right_low {
        ButtonState::Both
    } else if left_low {
        ButtonState::Left
    } else if right_low {
        ButtonState::Right
    } else {
        ButtonState::Neither
    }
}

/// Maps the two sampled input levels to the discrete button state.
pub fn button_state_of(left_low: bool, right_low: bool) -> (s: ButtonState)
    ensures
        s == state_of_levels(left_low, right_low),
{
    match (left_low, right_low) {
        (true, true) => ButtonState::Both,
        (true, false) => ButtonState::Left,
        (false, true) => ButtonState::Right,
        (false, false) => ButtonState::Neither,
    }
}

/// The level-to-state mapping is total and deterministic, with exactly this
/// table: (low, low) -> Both, (low, high) -> Left, (high, low) -> Right,
/// (high, high) -> None.
pub proof fn lemma_state_mapping_table()
    ensures
        state_of_levels(true, true) == ButtonState::Both,
        state_of_levels(true, false) == ButtonState::Left,
        state_of_levels(false, true) == ButtonState::Right,
        state_of_levels(false, false) == ButtonState::Neither,
{
}

} // verus!
