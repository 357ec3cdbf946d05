use vstd::prelude::*;

verus! {

/// The frame rate that durations are written for.
pub const DEFAULT_FRAMERATE: u16 = 60;

/// Frames measured in a window before a rate is computed.
pub const SAMPLE_SIZE: u16 = 60;

/// Windows measured before the tracker decides whether the rate is unlocked.
pub const SAMPLE_COUNT: u16 = 30;

/// A duration counted in frames at the standard rate, namely 1/60 s.
#[derive(Clone, Copy, Debug)]
pub struct Frames(pub u16);

/// `frames` standard frames rescaled to `rate` frames per second, capped at `u16::MAX`.
pub open spec fn actual_frames(frames: int, rate: int) -> int {
    let v = frames * rate / DEFAULT_FRAMERATE as int;
    if v > u16::MAX as int {
        u16::MAX as int
    } else {
        v
    }
}

impl Frames {
    pub fn standard(value: u16) -> (r: Frames)
        ensures
            r.0 == value,
    {
        Frames(value)
    }

    /// The same duration in frames at `rate` frames per second.
    pub fn as_actual(self, rate: u16) -> (r: u16)
        ensures
            r == actual_frames(self.0 as int, rate as int),
    {
        assert((self.0 as int) * (rate as int) <= 65535 * 65535) by (nonlinear_arith)
            requires
                self.0 <= 65535,
                rate <= 65535,
        ;
        let v: u64 = (self.0 as u64) * (rate as u64) / (DEFAULT_FRAMERATE as u64);
        if v > u16::MAX as u64 {
            u16::MAX
        } else {
            v as u16
        }
    }

    pub fn as_standard(self) -> (r: u16)
        ensures
            r == self.0,
    {
        self.0
    }
}

/// The rate measured over one window: `frames` frames in `elapsed_ms` milliseconds, where no
/// time at all counts as one millisecond.
pub open spec fn measured_rate(frames: int, elapsed_ms: int) -> int {
    frames * 1000 / (if elapsed_ms <= 0 {
        1
    } else {
        elapsed_ms
    })
}

/// Tracks the host's frame rate from the times at which its frames begin.
///
/// After `SAMPLE_COUNT` windows the tracker freezes at the standard rate unless some window
/// measured a rate above it by more than 5.
pub struct Framerate {
    cur: u16,
    frames: u16,
    since: Option<u64>,
    samples: u16,
    unlocked: bool,
}

impl Framerate {
    #[verifier::type_invariant]
    closed spec fn well_formed(self) -> bool {
        self.frames < SAMPLE_SIZE
    }

    /// The last rate computed (before the floor at the standard rate).
    pub closed spec fn last_rate(self) -> int {
        self.cur as int
    }

    /// Frames counted in the current window.
    pub closed spec fn window_frames(self) -> int {
        self.frames as int
    }

    /// When the current window began, once a frame was seen.
    pub closed spec fn window_start(self) -> Option<u64> {
        self.since
    }

    /// Windows measured so far (saturating).
    pub closed spec fn samples(self) -> int {
        self.samples as int
    }

    /// Whether some window measured a rate above the standard one by more than 5.
    pub closed spec fn unlocked(self) -> bool {
        self.unlocked
    }

    /// Whether the tracker stopped measuring.
    pub open spec fn frozen(self) -> bool {
        self.samples() >= SAMPLE_COUNT && !self.unlocked()
    }

    pub fn new() -> (r: Framerate)
        ensures
            r.last_rate() == DEFAULT_FRAMERATE,
            r.window_frames() == 0,
            r.window_start().is_none(),
            r.samples() == 0,
            !r.unlocked(),
    {
        Framerate { cur: DEFAULT_FRAMERATE, frames: 0, since: None, samples: 0, unlocked: false }
    }

    /// The last rate, but never below the standard rate.
    pub open spec fn current_rate(self) -> int {
        if self.last_rate() < DEFAULT_FRAMERATE {
            DEFAULT_FRAMERATE as int
        } else {
            self.last_rate()
        }
    }

    /// The current rate, never below the standard rate.
    pub fn cur(&self) -> (r: u16)
        ensures
            r == self.current_rate(),
            r >= DEFAULT_FRAMERATE,
    {
        if self.cur < DEFAULT_FRAMERATE {
            DEFAULT_FRAMERATE
        } else {
            self.cur
        }
    }

    pub fn is_freezed(&self) -> (r: bool)
        ensures
            r == self.frozen(),
    {
        self.samples >= SAMPLE_COUNT && !self.unlocked
    }

    /// `next` is `prev` after a frame that began at `now_ms`: a frozen tracker stays as it is;
    /// otherwise the frame is counted, and a full window yields a measured rate.
    pub open spec fn ticked(prev: Framerate, next: Framerate, now_ms: u64) -> bool {
        &&& prev.frozen() ==> next == prev
        &&& !prev.frozen() ==> {
            let start = match prev.window_start() {
                Some(s) => s,
                None => now_ms,
            };
            if prev.window_frames() + 1 < SAMPLE_SIZE {
                &&& next.window_frames() == prev.window_frames() + 1
                &&& next.window_start() == Some(start)
                &&& next.last_rate() == prev.last_rate()
                &&& next.samples() == prev.samples()
                &&& next.unlocked() == prev.unlocked()
            } else {
                let rate = measured_rate(SAMPLE_SIZE as int, now_ms - start);
                let samples = if prev.samples() < u16::MAX {
                    prev.samples() + 1
                } else {
                    prev.samples()
                };
                let unlocked = prev.unlocked() || rate > DEFAULT_FRAMERATE + 5;
                &&& next.window_frames() == 0
                &&& next.window_start() == Some(now_ms)
                &&& next.samples() == samples
                &&& next.unlocked() == unlocked
                &&& next.last_rate() == if samples == SAMPLE_COUNT && !unlocked {
                    DEFAULT_FRAMERATE as int
                } else {
                    rate
                }
            }
        }
    }

    /// Counts a frame that began at `now_ms` milliseconds on a monotonic clock.
    pub fn tick(&mut self, now_ms: u64)
        ensures
            Framerate::ticked(*old(self), *final(self), now_ms),
    {
        proof {
            use_type_invariant(&*self);
        }
        if self.is_freezed() {
            return ;
        }
        let since = match self.since {
            Some(s) => s,
            None => now_ms,
        };
        let frames = self.frames + 1;
        if frames < SAMPLE_SIZE {
            self.since = Some(since);
            self.frames = frames;
            return ;
        }
        let elapsed: u64 = if now_ms > since {
            now_ms - since
        } else {
            1
        };
        let rate: u64 = 60000 / elapsed;
        assert(60000int / (elapsed as int) <= 60000) by (nonlinear_arith)
            requires
                elapsed >= 1,
        ;
        let rate = rate as u16;
        self.frames = 0;
        self.since = Some(now_ms);
        self.samples = self.samples.saturating_add(1);
        if rate > DEFAULT_FRAMERATE + 5 {
            self.unlocked = true;
        }
        if self.samples == SAMPLE_COUNT && !self.unlocked {
            self.cur = DEFAULT_FRAMERATE;
        } else {
            self.cur = rate;
        }
    }
}

} // verus!
