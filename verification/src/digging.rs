//! The digging countdown attached to a tile mid-excavation: a timer that
//! accumulates elapsed time and clamps at its duration.

use vstd::prelude::*;

use crate::TIME_SCALE;

verus! {

/// Per-tile excavation timer. Both fields are fixed-point times in
/// [`TIME_SCALE`] sub-units per time unit.
#[derive(Clone, Copy, Debug, PartialEq, Eq, Structural)]
pub struct TileDigging {
    pub elapsed: u64,
    pub duration: u64,
}

/// How long digging a tile of the given hardness takes: half a time unit
/// more half the hardness, the design constant `0.5 * (1 + hardness)`.
pub open spec fn spec_dig_duration(hardness: u32) -> u64 {
    ((TIME_SCALE + hardness) / 2) as u64
}

/// Compute the digging duration for a hardness value.
pub fn dig_duration(hardness: u32) -> (r: u64)
    ensures
        r == spec_dig_duration(hardness),
{
    (TIME_SCALE + hardness as u64) / 2
}

impl TileDigging {
    /// A timer never runs past its duration.
    pub open spec fn wf(&self) -> bool {
        self.elapsed <= self.duration
    }

    /// Whether `delta` more elapsed time completes this timer.
    pub open spec fn spec_completes(&self, delta: u64) -> bool {
        self.elapsed + delta >= self.duration
    }

    /// A fresh timer that will run for `time`.
    pub fn new(time: u64) -> (r: TileDigging)
        ensures
            r == (TileDigging { elapsed: 0, duration: time }),
            r.wf(),
    {
        TileDigging { elapsed: 0, duration: time }
    }

    /// Accumulate elapsed time, clamping at the duration.
    pub fn tick(&mut self, delta: u64)
        requires
            old(self).wf(),
        ensures
            final(self).duration == old(self).duration,
            final(self).elapsed == if old(self).spec_completes(delta) {
                old(self).duration as int
            } else {
                old(self).elapsed + delta
            },
            final(self).wf(),
    {
        let remaining = self.duration - self.elapsed;
        if delta >= remaining {
            self.elapsed = self.duration;
        } else {
            self.elapsed = self.elapsed + delta;
        }
    }

    /// Whether the countdown has expired.
    pub fn finished(&self) -> (r: bool)
        ensures
            r == (self.elapsed >= self.duration),
    {
        self.elapsed >= self.duration
    }
}

} // verus!
