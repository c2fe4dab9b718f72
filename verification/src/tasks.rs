//! The decision steps of the two tasks. The button sampler loops: sample the
//! two input lines, map and publish, then suspend until either line sees an
//! edge. The display driver loops: poll the signal without blocking, keep the
//! last observed state, and render one frame of its pattern. The sampling,
//! the edge waits, the dwell timer and the scheduler are the platform's; the
//! loop bodies' decisions stand here, verified.

use vstd::prelude::*;

use crate::pattern::Pattern;
use crate::pattern::pattern_for;
use crate::pattern::pattern_matches;
use crate::signal::SharedSignal;
use crate::state::ButtonState;
use crate::state::button_state_of;
use crate::state::state_of_levels;

verus! {

/// One pass of the button sampler between suspensions: maps the sampled
/// levels to a state and publishes it, overwriting any unconsumed one.
/// Returns the published state.
pub fn sample_and_publish(sig: &mut SharedSignal, left_low: bool, right_low: bool) -> (s:
    ButtonState)
    ensures
        s == state_of_levels(left_low, right_low),
        final(sig)@ == Some(s),
{
    let s = button_state_of(left_low, right_low);
    sig.publish(s);
    s
}

/// The state the driver holds after one poll of the signal: the taken value
/// if one was pending, the previously held state otherwise.
pub open spec fn held_after_poll(prev: ButtonState, pending: Option<ButtonState>) -> ButtonState {
    match pending {
        Some(v) => v,
        None => prev,
    }
}

/// One pass of the display driver's loop up to its suspension: polls the
/// signal without blocking, updates the held state only if a value was
/// pending, and selects the pattern to render for one frame. Before the very
/// first publication the poll finds nothing, so a driver started with
/// `ButtonState::Neither` renders the all-unlit pattern.
pub fn driver_step(sig: &mut SharedSignal, held: ButtonState) -> (r: (ButtonState, Pattern))
    ensures
        r.0 == held_after_poll(held, old(sig)@),
        final(sig)@ is None,
        pattern_matches(r.1, r.0),
{
    let held_now = match sig.try_take() {
        Some(v) => v,
        None => held,
    };
    let p = pattern_for(held_now);
    (held_now, p)
}

} // verus!
