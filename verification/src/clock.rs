//! The frame clock: how long the last frame took, and how long a frame has
//! to wait so that none ends before the minimum frame time.
//!
//! Times are microseconds on a clock that the caller reads. The clock here
//! only does the arithmetic.

use vstd::prelude::*;

verus! {

/// The least time a frame may take, in microseconds. Frames drawn faster than
/// this tear on the terminal.
pub const MIN_FRAME_TIME: u128 = 50_000;

/// The frame time assumed before any frame has been measured, in
/// microseconds.
pub const INITIAL_DELTA_TIME: u128 = 100_000;

/// The time from `from` to `to`, and zero where `to` is the earlier one.
pub open spec fn span(from: int, to: int) -> int {
    if to >= from {
        to - from
    } else {
        0
    }
}

/// The two marks of the frame clock: when the current frame began and when
/// the last finished frame ended.
#[derive(Debug, Clone, Copy, PartialEq, Eq, Structural)]
pub struct FrameClock {
    pub frame_start: u128,
    pub frame_end: u128,
}

impl FrameClock {
    /// The time the marked frame took.
    pub open spec fn delta(self) -> int {
        span(self.frame_start as int, self.frame_end as int)
    }

    /// The time that has passed at `now` since the frame began.
    pub open spec fn elapsed_at(self, now: int) -> int {
        span(self.frame_start as int, now)
    }

    /// The time that is left at `now` until the frame has lasted
    /// `min_frame_time`.
    pub open spec fn wait_at(self, now: int, min_frame_time: int) -> int {
        span(self.elapsed_at(now), min_frame_time)
    }

    /// The clock after a frame began at `now`.
    pub open spec fn began(self, now: u128) -> FrameClock {
        FrameClock { frame_start: now, frame_end: self.frame_end }
    }

    /// The clock after the frame ended at `now`.
    pub open spec fn ended(self, now: u128) -> FrameClock {
        FrameClock { frame_start: self.frame_start, frame_end: now }
    }

    /// A clock whose two marks are `now`: no time has been measured yet.
    pub fn new(now: u128) -> (clock: FrameClock)
        ensures
            clock == (FrameClock { frame_start: now, frame_end: now }),
            clock.delta() == 0,
    {
        FrameClock { frame_start: now, frame_end: now }
    }

    /// The time the last finished frame took: from its start to its end.
    pub fn delta_time(&self) -> (delta: u128)
        ensures
            delta == self.delta(),
    {
        if self.frame_end >= self.frame_start {
            self.frame_end - self.frame_start
        } else {
            0
        }
    }

    /// Opens a frame at `now`. Returns the time that the frame before it
    /// took, which is measured before the new start is marked.
    pub fn begin_frame(&mut self, now: u128) -> (delta: u128)
        ensures
            delta == old(self).delta(),
            *final(self) == old(self).began(now),
    {
        let delta = self.delta_time();
        self.frame_start = now;
        delta
    }

    /// The time that has passed at `now` since the frame began.
    pub fn elapsed(&self, now: u128) -> (elapsed: u128)
        ensures
            elapsed == self.elapsed_at(now as int),
    {
        if now >= self.frame_start {
            now - self.frame_start
        } else {
            0
        }
    }

    /// How long the frame still has to wait at `now` so that it lasts at
    /// least `min_frame_time`: nothing once it has lasted that long.
    pub fn wait_needed(&self, now: u128, min_frame_time: u128) -> (wait: u128)
        ensures
            wait == self.wait_at(now as int, min_frame_time as int),
            wait == 0 <==> self.elapsed_at(now as int) >= min_frame_time,
            self.elapsed_at(now as int) + wait >= min_frame_time,
    {
        let elapsed = self.elapsed(now);
        if elapsed < min_frame_time {
            min_frame_time - elapsed
        } else {
            0
        }
    }

    /// Closes the frame at `now`.
    pub fn end_frame(&mut self, now: u128)
        ensures
            *final(self) == old(self).ended(now),
    {
        self.frame_end = now;
    }
}

/// The frame floor. A frame that began at `began_at`, asked at `asked_at` how
/// long to wait and ended no sooner than that wait after asking, lasted at
/// least the minimum frame time, whatever the clock held before.
pub proof fn lemma_frame_floor(
    clock: FrameClock,
    began_at: u128,
    asked_at: u128,
    ended_at: u128,
    min_frame_time: u128,
)
    requires
        began_at <= asked_at,
        ended_at >= asked_at + clock.began(began_at).wait_at(
            asked_at as int,
            min_frame_time as int,
        ),
    ensures
        clock.began(began_at).ended(ended_at).delta() >= min_frame_time,
{
}

/// Frames per second at a frame time of `delta_time` microseconds, rounded
/// down. One microsecond is added to the frame time, so that a frame that
/// took no measurable time still has a rate.
pub fn frame_rate(delta_time: u128) -> (rate: u128)
    ensures
        rate == 1_000_000int / (delta_time + 1),
{
    if delta_time >= 1_000_000 {
        assert(1_000_000int / (delta_time + 1) == 0) by (nonlinear_arith)
            requires
                delta_time >= 1_000_000,
        ;
        0
    } else {
        1_000_000 / (delta_time + 1)
    }
}

} // verus!
