use led_matrix::pattern::pattern_for;
use led_matrix::signal::SharedSignal;
use led_matrix::state::ButtonState;
use led_matrix::tasks::{driver_step, sample_and_publish};

const EMPTY_GRID: [[bool; 5]; 5] = [[false; 5]; 5];

const LEFT_GRID: [[bool; 5]; 5] = [
    [false, false, false, false, false],
    [false, true, false, false, false],
    [true, true, true, true, true],
    [false, true, false, false, false],
    [false, false, false, false, false],
];

const RIGHT_GRID: [[bool; 5]; 5] = [
    [false, false, false, false, false],
    [false, false, false, true, false],
    [true, true, true, true, true],
    [false, false, false, true, false],
    [false, false, false, false, false],
];

const BOTH_GRID: [[bool; 5]; 5] = [
    [false, false, false, false, false],
    [false, true, false, true, false],
    [true, true, true, true, true],
    [false, true, false, true, false],
    [false, false, false, false, false],
];

#[test]
fn pattern_table_holds_the_four_grids() {
    assert_eq!(pattern_for(ButtonState::Neither).cells, EMPTY_GRID);
    assert_eq!(pattern_for(ButtonState::Left).cells, LEFT_GRID);
    assert_eq!(pattern_for(ButtonState::Right).cells, RIGHT_GRID);
    assert_eq!(pattern_for(ButtonState::Both).cells, BOTH_GRID);
}

#[test]
fn both_inputs_low_renders_the_both_pattern() {
    let mut sig = SharedSignal::new();
    sample_and_publish(&mut sig, true, true);
    let (held, p) = driver_step(&mut sig, ButtonState::Neither);
    assert_eq!(held, ButtonState::Both);
    assert_eq!(p.cells, BOTH_GRID);
}

#[test]
fn no_inputs_low_renders_the_all_unlit_pattern() {
    let mut sig = SharedSignal::new();
    sample_and_publish(&mut sig, false, false);
    let (held, p) = driver_step(&mut sig, ButtonState::Neither);
    assert_eq!(held, ButtonState::Neither);
    assert_eq!(p.cells, EMPTY_GRID);
}

#[test]
fn an_edge_to_both_changes_the_rendered_pattern_within_one_poll() {
    let mut sig = SharedSignal::new();
    // First input low: the sampler publishes Left and the driver renders it.
    sample_and_publish(&mut sig, true, false);
    let (held, p) = driver_step(&mut sig, ButtonState::Neither);
    assert_eq!(held, ButtonState::Left);
    assert_eq!(p.cells, LEFT_GRID);
    // The driver keeps rendering LEFT while no new value is published.
    let (held, p) = driver_step(&mut sig, held);
    assert_eq!(held, ButtonState::Left);
    assert_eq!(p.cells, LEFT_GRID);
    // The second line's edge wakes the sampler, which re-samples (low, low)
    // and publishes Both; the driver's next poll renders BOTH.
    sample_and_publish(&mut sig, true, true);
    let (held, p) = driver_step(&mut sig, held);
    assert_eq!(held, ButtonState::Both);
    assert_eq!(p.cells, BOTH_GRID);
}

#[test]
fn polling_before_the_first_publication_renders_the_default() {
    let mut sig = SharedSignal::new();
    let (held, p) = driver_step(&mut sig, ButtonState::Neither);
    assert_eq!(held, ButtonState::Neither);
    assert_eq!(p.cells, EMPTY_GRID);
}
