//! The shared counter: one byte, written only by the interrupt handler, read only
//! by the main loop, and touched by either only inside a critical section.

use crate::gate::CriticalSection;
use vstd::prelude::*;

verus! {

/// The value one increment after `v`: one more, and 0 after 255.
pub open spec fn successor(v: u8) -> u8 {
    ((v + 1) % 256) as u8
}

/// The value `n` consecutive increments after `start`.
pub open spec fn after_increments(start: u8, n: nat) -> u8
    decreases n,
{
    if n == 0 {
        start
    } else {
        successor(after_increments(start, (n - 1) as nat))
    }
}

/// The value one increment after `v`.
pub fn next_value(v: u8) -> (next: u8)
    ensures
        next == successor(v),
{
    v.wrapping_add(1)
}

/// The counter cell.
pub struct SharedCounter {
    value: u8,
}

impl View for SharedCounter {
    type V = u8;

    closed spec fn view(&self) -> u8 {
        self.value
    }
}

impl SharedCounter {
    /// A counter at 0.
    pub fn new() -> (counter: SharedCounter)
        ensures
            counter@ == 0,
    {
        SharedCounter { value: 0 }
    }

    /// Adds one, wrapping from 255 to 0.
    pub fn increment(&mut self, cs: &CriticalSection)
        ensures
            final(self)@ == successor(old(self)@),
    {
        self.value = next_value(self.value);
    }

    /// The current value.
    pub fn read(&self, cs: &CriticalSection) -> (value: u8)
        ensures
            value == self@,
    {
        self.value
    }
}

/// `n` consecutive increments add `n` modulo 256.
pub proof fn lemma_after_increments_is_sum(start: u8, n: nat)
    ensures
        after_increments(start, n) == (start + n) % 256,
    decreases n,
{
    if n > 0 {
        lemma_after_increments_is_sum(start, (n - 1) as nat);
    }
}

/// The counter has period 256: after 256 consecutive increments it is back at the
/// value it started from, whatever that was, and after fewer it is not.
pub proof fn lemma_full_cycle(start: u8)
    ensures
        after_increments(start, 256) == start,
        forall|n: nat| 0 < n < 256 ==> #[trigger] after_increments(start, n) != start,
{
    lemma_after_increments_is_sum(start, 256);
    assert forall|n: nat| 0 < n < 256 implies #[trigger] after_increments(start, n) != start by {
        lemma_after_increments_is_sum(start, n);
    }
}

} // verus!
