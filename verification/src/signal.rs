//! The shared signal: a single-slot, latest-value mailbox between the button
//! sampler (its only writer) and the display driver (its only reader). A
//! publication overwrites whatever was pending; a take returns and clears the
//! pending value, or returns nothing. It is not a queue: a value that was
//! never taken is silently discarded by the next publication.

use vstd::prelude::*;

use crate::state::ButtonState;

verus! {

/// A single-slot mailbox holding at most one unconsumed button state.
pub struct SharedSignal {
    slot: Option<ButtonState>,
}

impl View for SharedSignal {
    type V = Option<ButtonState>;

    closed spec fn view(&self) -> Option<ButtonState> {
        self.slot
    }
}

impl SharedSignal {
    /// Creates the signal empty: a take before the first publication finds
    /// nothing.
    pub fn new() -> (s: SharedSignal)
        ensures
            s@ is None,
    {
        SharedSignal { slot: None }
    }

    /// Publishes a state, overwriting any pending one: freshest wins.
    pub fn publish(&mut self, v: ButtonState)
        ensures
            final(self)@ == Some(v),
    {
        self.slot = Some(v);
    }

    /// Non-blocking take: returns the pending value, if any, and clears the
    /// slot either way.
    pub fn try_take(&mut self) -> (r: Option<ButtonState>)
        ensures
            r == old(self)@,
            final(self)@ is None,
    {
        let r = self.slot;
        self.slot = None;
        r
    }
}

/// The slot's contents after a sequence of publications, none of them taken:
/// each one overwrites the slot.
pub open spec fn slot_after_publishing(
    s: Option<ButtonState>,
    vs: Seq<ButtonState>,
) -> Option<ButtonState>
    decreases vs.len(),
{
    if vs.len() == 0 {
        s
    } else {
        slot_after_publishing(Some(vs[0]), vs.subrange(1, vs.len() as int))
    }
}

/// The signal never loses the most recent publication: after any number of
/// publications with no intervening takes, the slot holds exactly the last
/// published value, whatever it held before. A single take then returns it
/// and leaves the slot empty, by `try_take`'s contract.
pub proof fn lemma_latest_publication_retained(s: Option<ButtonState>, vs: Seq<ButtonState>)
    requires
        vs.len() > 0,
    ensures
        slot_after_publishing(s, vs) == Some(vs.last()),
    decreases vs.len(),
{
    if vs.len() == 1 {
    } else {
        let rest = vs.subrange(1, vs.len() as int);
        lemma_latest_publication_retained(Some(vs[0]), rest);
        assert(rest.last() == vs.last());
    }
}

} // verus!
