//! Exponential backoff: the pause a caller takes between two attempts at a
//! contended update.

use vstd::prelude::*;

verus! {

/// The delay, in spin units, that a fresh or reset backoff starts with.
pub const INITIAL_DELAY: u32 = 1;

/// The cap on the delay, in spin units.
pub const MAX_DELAY: u32 = 1024;

/// `core::hint::spin_loop` tells the processor that the caller is busy-waiting.
/// It takes nothing and returns nothing, so nothing is claimed of it beyond
/// that it returns.
pub assume_specification[ core::hint::spin_loop ]();

/// The delay that follows `current` under the cap `max`: twice as long, but
/// never longer than the cap.
pub open spec fn next_delay(current: int, max: int) -> int {
    if 2 * current < max {
        2 * current
    } else {
        max
    }
}

/// Pacing state of one operation. It is owned by the operation that retries
/// and never shared.
pub struct Backoff {
    current: u32,
    max: u32,
}

impl Backoff {
    /// The delay of the next `spin`, in spin units.
    pub closed spec fn current_delay(&self) -> int {
        self.current as int
    }

    /// The cap that the delay never exceeds.
    pub closed spec fn max_delay(&self) -> int {
        self.max as int
    }

    /// The delay lies between the initial unit and the cap.
    pub closed spec fn wf(&self) -> bool {
        &&& INITIAL_DELAY <= self.current <= self.max
        &&& self.max == MAX_DELAY
    }

    /// A backoff at its initial delay.
    pub fn new() -> (b: Self)
        ensures
            b.wf(),
            b.current_delay() == INITIAL_DELAY,
            b.max_delay() == MAX_DELAY,
    {
        Backoff { current: INITIAL_DELAY, max: MAX_DELAY }
    }

    /// Busy-waits for the current delay, then doubles the delay up to the cap.
    pub fn spin(&mut self)
        requires
            old(self).wf(),
        ensures
            final(self).wf(),
            final(self).current_delay() == next_delay(
                old(self).current_delay(),
                old(self).max_delay(),
            ),
            final(self).max_delay() == old(self).max_delay(),
    {
        let mut spun: u32 = 0;
        while spun < self.current
            invariant
                spun <= self.current,
            decreases self.current - spun,
        {
            core::hint::spin_loop();
            spun = spun + 1;
        }
        let doubled: u32 = self.current * 2;
        self.current = if doubled < self.max {
            doubled
        } else {
            self.max
        };
    }

    /// Restores the initial delay.
    pub fn reset(&mut self)
        requires
            old(self).wf(),
        ensures
            final(self).wf(),
            final(self).current_delay() == INITIAL_DELAY,
            final(self).max_delay() == old(self).max_delay(),
    {
        self.current = INITIAL_DELAY;
    }

    /// The delay of the next `spin`, in spin units.
    pub fn delay(&self) -> (d: u32)
        ensures
            d == self.current_delay(),
    {
        self.current
    }
}

} // verus!
