//! The cancellation signal as a latch: it is fired at most once in effect,
//! and whoever looks at it afterwards, however late, finds it fired.

use vstd::prelude::*;

verus! {

/// The state of a cancellation signal.
#[derive(Debug)]
pub struct CancelSignal {
    fired: bool,
}

impl View for CancelSignal {
    type V = bool;

    /// Whether the signal was fired.
    closed spec fn view(&self) -> bool {
        self.fired
    }
}

/// Whether the signal is fired after `count` firings of a signal that was in
/// state `fired` before.
pub open spec fn fired_after(fired: bool, count: nat) -> bool {
    fired || count > 0
}

/// How many of `count` firings wake the signal's subscribers, for a signal
/// that was in state `fired` before: the first firing of an unfired signal
/// and no other.
pub open spec fn wake_ups(fired: bool, count: nat) -> nat {
    if !fired && count > 0 {
        1
    } else {
        0
    }
}

impl CancelSignal {
    /// A signal that was not fired yet.
    pub fn new() -> (signal: Self)
        ensures
            !signal@,
    {
        CancelSignal { fired: false }
    }

    /// Fires the signal. Returns whether this firing was the first, the one
    /// on which the subscribers are to be woken.
    pub fn fire(&mut self) -> (first: bool)
        ensures
            final(self)@ == fired_after(old(self)@, 1),
            first == (wake_ups(old(self)@, 1) == 1),
    {
        let first = !self.fired;
        self.fired = true;
        first
    }

    /// Whether the signal was fired; what a subscriber finds when it looks,
    /// also one that came after the firing.
    pub fn is_fired(&self) -> (fired: bool)
        ensures
            fired == self@,
    {
        self.fired
    }
}

/// Firing is idempotent: any number of firings, one at least, leaves the
/// signal as one firing does and wakes the subscribers as often as one does;
/// and a signal once fired stays fired whatever follows.
pub proof fn lemma_fire_is_idempotent(fired: bool, count: nat, more: nat)
    requires
        count >= 1,
    ensures
        fired_after(fired, count) == fired_after(fired, 1),
        wake_ups(fired, count) == wake_ups(fired, 1),
        fired_after(fired_after(fired, count), more),
        fired_after(fired, count + more) == fired_after(fired_after(fired, count), more),
        wake_ups(fired, count + more) == wake_ups(fired, count) + wake_ups(
            fired_after(fired, count),
            more,
        ),
{
}

} // verus!
