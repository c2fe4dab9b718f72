use led_matrix::signal::SharedSignal;
use led_matrix::state::{button_state_of, ButtonState};
use led_matrix::tasks::sample_and_publish;

#[test]
fn mapping_both_low_is_both() {
    assert_eq!(button_state_of(true, true), ButtonState::Both);
}

#[test]
fn mapping_only_first_low_is_left() {
    assert_eq!(button_state_of(true, false), ButtonState::Left);
}

#[test]
fn mapping_only_second_low_is_right() {
    assert_eq!(button_state_of(false, true), ButtonState::Right);
}

#[test]
fn mapping_none_low_is_neither() {
    assert_eq!(button_state_of(false, false), ButtonState::Neither);
}

#[test]
fn signal_keeps_only_the_last_of_three_publications() {
    let mut sig = SharedSignal::new();
    sig.publish(ButtonState::Left);
    sig.publish(ButtonState::Right);
    sig.publish(ButtonState::Both);
    assert_eq!(sig.try_take(), Some(ButtonState::Both));
    assert_eq!(sig.try_take(), None);
}

#[test]
fn signal_take_before_any_publication_finds_nothing() {
    let mut sig = SharedSignal::new();
    assert_eq!(sig.try_take(), None);
}

#[test]
fn signal_take_clears_a_single_publication() {
    let mut sig = SharedSignal::new();
    sig.publish(ButtonState::Right);
    assert_eq!(sig.try_take(), Some(ButtonState::Right));
    assert_eq!(sig.try_take(), None);
}

#[test]
fn sampler_publishes_what_it_maps() {
    let mut sig = SharedSignal::new();
    let s = sample_and_publish(&mut sig, false, true);
    assert_eq!(s, ButtonState::Right);
    assert_eq!(sig.try_take(), Some(ButtonState::Right));
}
