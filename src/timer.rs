use vstd::prelude::*;

verus! {

/// A countdown in whole milliseconds that fires when `duration` has passed, and starts
/// over, carrying the remainder, when it repeats.
#[derive(Clone, Copy, Debug, PartialEq, Eq, Structural)]
pub struct Timer {
    pub elapsed: u64,
    pub duration: u64,
    pub repeating: bool,
    pub finished: bool,
    pub times_finished: u64,
}

/// The timer after `delta` more milliseconds.
pub open spec fn ticked(t: Timer, delta: int) -> Timer {
    if !t.repeating && t.finished {
        Timer { times_finished: 0, ..t }
    } else {
        let e = t.elapsed + delta;
        if e >= t.duration {
            if t.repeating {
                Timer {
                    elapsed: (e % t.duration as int) as u64,
                    finished: true,
                    times_finished: (e / t.duration as int) as u64,
                    ..t
                }
            } else {
                Timer { elapsed: t.duration, finished: true, times_finished: 1, ..t }
            }
        } else {
            Timer { elapsed: e as u64, finished: false, times_finished: 0, ..t }
        }
    }
}

impl Timer {
    pub open spec fn wf(&self) -> bool {
        0 < self.duration <= u32::MAX && self.elapsed <= self.duration
    }

    pub fn new(duration: u64, repeating: bool) -> (r: Timer)
        requires
            0 < duration <= u32::MAX,
        ensures
            r == (Timer { elapsed: 0, duration, repeating, finished: false, times_finished: 0 }),
            r.wf(),
    {
        Timer { elapsed: 0, duration, repeating, finished: false, times_finished: 0 }
    }

    /// Advances the timer by `delta` milliseconds.
    pub fn tick(&mut self, delta: u32)
        requires
            old(self).wf(),
        ensures
            *final(self) == ticked(*old(self), delta as int),
            final(self).wf(),
    {
        if !self.repeating && self.finished {
            self.times_finished = 0;
            return;
        }
        let e = self.elapsed + delta as u64;
        if e >= self.duration {
            self.finished = true;
            if self.repeating {
                self.times_finished = e / self.duration;
                self.elapsed = e % self.duration;
            } else {
                self.times_finished = 1;
                self.elapsed = self.duration;
            }
        } else {
            self.finished = false;
            self.times_finished = 0;
            self.elapsed = e;
        }
    }

    /// The timer reached its duration on its latest tick.
    pub fn just_finished(&self) -> (r: bool)
        ensures
            r == (self.times_finished > 0),
    {
        self.times_finished > 0
    }
}

} // verus!
