//! A countdown timer: an 8-bit value that the host decrements once per
//! emulation cycle, flooring at zero.

use vstd::prelude::*;

verus! {

/// The value a timer holds after one tick: one less, flooring at zero.
pub open spec fn tick1(v: u8) -> u8 {
    if v > 0 {
        (v - 1) as u8
    } else {
        0
    }
}

/// The value a timer holds after `n` ticks.
pub open spec fn tick_n(v: u8, n: nat) -> u8
    decreases n,
{
    if n == 0 {
        v
    } else {
        tick1(tick_n(v, (n - 1) as nat))
    }
}

/// After `n` ticks the value is the starting value less `n`, flooring at zero.
pub proof fn lemma_tick_value(v: u8, n: nat)
    ensures
        tick_n(v, n) == if n >= v {
            0u8
        } else {
            (v - n) as u8
        },
    decreases n,
{
    if n > 0 {
        lemma_tick_value(v, (n - 1) as nat);
    }
}

/// Once at least as many ticks have passed as the starting value, the timer
/// sits at zero; it never wraps below it.
pub proof fn lemma_tick_floor(v: u8, n: nat)
    requires
        n >= v,
    ensures
        tick_n(v, n) == 0,
{
    lemma_tick_value(v, n);
}

/// An 8-bit countdown value driven by the host's fixed-rate tick.
pub struct Timer {
    value: u8,
}

impl Timer {
    /// The current countdown value.
    pub closed spec fn spec_value(self) -> u8 {
        self.value
    }

    pub fn new() -> (r: Timer)
        ensures
            r.spec_value() == 0,
    {
        Timer { value: 0 }
    }

    /// Decrement by one if the value is positive; at zero this is a no-op.
    pub fn tick(&mut self)
        ensures
            final(self).spec_value() == tick1(old(self).spec_value()),
    {
        if self.value > 0 {
            self.value = self.value - 1;
        }
    }

    pub fn set(&mut self, v: u8)
        ensures
            final(self).spec_value() == v,
    {
        self.value = v;
    }

    pub fn get(&self) -> (r: u8)
        ensures
            r == self.spec_value(),
    {
        self.value
    }
}

} // verus!
