//! ADSR envelope parameters.
//!
//! Attack, decay and release are stage lengths counted in output samples;
//! sustain is the level the envelope holds after the decay stage, in
//! `0 ..= UNIT` fixed-point units.  The UI writes the shared cells at any
//! time; the engine reads all four once per output buffer into an `ADSR`
//! snapshot and uses that snapshot for the whole buffer.

use vstd::prelude::*;

use crate::atomicf::{AtomicDuration, AtomicLevel};
use crate::UNIT;

verus! {

/// The shared, UI-writable cells holding the four envelope parameters.
pub struct AdsrCells {
    pub attack: AtomicDuration,
    pub decay: AtomicDuration,
    pub sustain: AtomicLevel,
    pub release: AtomicDuration,
}

impl AdsrCells {
    /// Cells preloaded with the given stage lengths and sustain level.
    pub fn new(attack: u32, decay: u32, sustain: u32, release: u32) -> AdsrCells
        requires
            sustain <= UNIT,
    {
        AdsrCells {
            attack: AtomicDuration::new(attack),
            decay: AtomicDuration::new(decay),
            sustain: AtomicLevel::new(sustain),
            release: AtomicDuration::new(release),
        }
    }
}

/// One buffer's snapshot of the envelope parameters.
#[derive(Clone, Copy, PartialEq, Eq, Structural, Debug)]
pub struct ADSR {
    /// Attack stage length in samples.
    pub attack: u32,
    /// Decay stage length in samples.
    pub decay: u32,
    /// Sustain level in `0 ..= UNIT` units.
    pub sustain: u32,
    /// Release stage length in samples.
    pub release: u32,
}

impl ADSR {
    /// A legal snapshot keeps the sustain target inside the amplitude range.
    pub open spec fn wf(self) -> bool {
        self.sustain <= UNIT
    }

    /// The snapshot the engine starts from before it has read any cell:
    /// instantaneous stages and full sustain.
    pub fn new() -> (a: ADSR)
        ensures
            a == (ADSR { attack: 0, decay: 0, sustain: UNIT, release: 0 }),
            a.wf(),
    {
        ADSR { attack: 0, decay: 0, sustain: UNIT, release: 0 }
    }

    /// Re-read all four parameter cells.  Whatever interleaving of UI writes
    /// the loads observe, the resulting snapshot is legal.
    pub fn update(&mut self, cells: &AdsrCells)
        ensures
            final(self).wf(),
    {
        self.attack = cells.attack.load();
        self.decay = cells.decay.load();
        self.sustain = cells.sustain.load();
        self.release = cells.release.load();
    }
}

} // verus!
