//! The daemon's tick clock, over millisecond readings of a monotonic clock.

use vstd::prelude::*;

verus! {

pub struct Scheduler {
    pub last_tick_ms: u64,
    pub tick_interval_ms: u64,
    pub ticks: u64,
}

impl Scheduler {
    /// A clock whose first tick starts at `now_ms`.
    pub fn new(interval_ms: u64, now_ms: u64) -> (s: Self)
        ensures
            s.last_tick_ms == now_ms,
            s.tick_interval_ms == interval_ms,
            s.ticks == 0,
    {
        Scheduler { last_tick_ms: now_ms, tick_interval_ms: interval_ms, ticks: 0 }
    }

    /// The time elapsed since the last tick (zero if the reading is earlier).
    pub open spec fn elapsed(&self, now_ms: u64) -> int {
        if now_ms >= self.last_tick_ms { now_ms - self.last_tick_ms } else { 0 }
    }

    /// Milliseconds until the next tick is due: zero once it is due, and at
    /// most `i32::MAX`.
    pub fn timeout_until_next_tick_ms(&self, now_ms: u64) -> (r: i32)
        ensures
            r == if self.elapsed(now_ms) >= self.tick_interval_ms {
                0
            } else if self.tick_interval_ms - self.elapsed(now_ms) > i32::MAX {
                i32::MAX as int
            } else {
                self.tick_interval_ms - self.elapsed(now_ms)
            },
    {
        let elapsed = if now_ms >= self.last_tick_ms { now_ms - self.last_tick_ms } else { 0 };
        if elapsed >= self.tick_interval_ms {
            0
        } else {
            let left = self.tick_interval_ms - elapsed;
            if left > i32::MAX as u64 {
                i32::MAX
            } else {
                left as i32
            }
        }
    }

    /// Whether the next tick is due.
    pub fn should_tick(&self, now_ms: u64) -> (r: bool)
        ensures
            r == (self.elapsed(now_ms) >= self.tick_interval_ms),
    {
        let elapsed = if now_ms >= self.last_tick_ms { now_ms - self.last_tick_ms } else { 0 };
        elapsed >= self.tick_interval_ms
    }

    /// Starts a new tick at `now_ms`.
    pub fn tick(&mut self, now_ms: u64)
        requires
            old(self).ticks < u64::MAX,
        ensures
            final(self).last_tick_ms == now_ms,
            final(self).ticks == old(self).ticks + 1,
            final(self).tick_interval_ms == old(self).tick_interval_ms,
    {
        self.last_tick_ms = now_ms;
        self.ticks = self.ticks + 1;
    }
}

} // verus!
