use led_matrix::pattern::pattern_for;
use led_matrix::scan::{frame_commands, LineCmd};
use led_matrix::state::ButtonState;

const BOTH_GRID: [[bool; 5]; 5] = [
    [false, false, false, false, false],
    [false, true, false, true, false],
    [true, true, true, true, true],
    [false, true, false, true, false],
    [false, false, false, false, false],
];

#[test]
fn frame_has_eight_commands_per_row() {
    let p = pattern_for(ButtonState::Both);
    let v = frame_commands(&p, 2000);
    assert_eq!(v.len(), 40);
}

#[test]
fn frame_activates_each_row_once_in_increasing_order() {
    let p = pattern_for(ButtonState::Both);
    let v = frame_commands(&p, 2000);
    let mut activated: Vec<usize> = Vec::new();
    for cmd in &v {
        if let LineCmd::RowHigh(r) = cmd {
            activated.push(*r);
        }
    }
    assert_eq!(activated, vec![0, 1, 2, 3, 4]);
}

#[test]
fn frame_dwells_once_per_row_for_the_same_duration() {
    let p = pattern_for(ButtonState::Both);
    let v = frame_commands(&p, 2000);
    let mut dwells: Vec<u64> = Vec::new();
    for cmd in &v {
        if let LineCmd::Dwell(d) = cmd {
            dwells.push(*d);
        }
    }
    assert_eq!(dwells, vec![2000, 2000, 2000, 2000, 2000]);
}

#[test]
fn frame_releases_a_row_before_activating_the_next() {
    let p = pattern_for(ButtonState::Both);
    let v = frame_commands(&p, 2000);
    let mut active: Option<usize> = None;
    for cmd in &v {
        match cmd {
            LineCmd::RowHigh(r) => {
                assert_eq!(active, None);
                active = Some(*r);
            }
            LineCmd::RowLow(r) => {
                assert_eq!(active, Some(*r));
                active = None;
            }
            _ => {}
        }
    }
    assert_eq!(active, None);
}

#[test]
fn frame_drives_exactly_the_lit_columns_low() {
    let p = pattern_for(ButtonState::Both);
    let v = frame_commands(&p, 2000);
    for b in 0..5 {
        assert_eq!(v[8 * b], LineCmd::RowHigh(b));
        for c in 0..5 {
            let expected = if BOTH_GRID[b][c] {
                LineCmd::ColLow(c)
            } else {
                LineCmd::ColHigh(c)
            };
            assert_eq!(v[8 * b + 1 + c], expected);
        }
        assert_eq!(v[8 * b + 6], LineCmd::Dwell(2000));
        assert_eq!(v[8 * b + 7], LineCmd::RowLow(b));
    }
}

#[test]
fn scanning_twice_gives_the_same_command_sequence() {
    let p = pattern_for(ButtonState::Left);
    let first = frame_commands(&p, 2000);
    let second = frame_commands(&p, 2000);
    assert_eq!(first, second);
}
