//! Lock-free shared parameter cells.
//!
//! A UI thread and the real-time audio thread exchange scalar parameters
//! through single-word atomic cells: writers store with release ordering,
//! readers load with acquire ordering, so a reader never observes a torn
//! value and neither side ever blocks.  `AtomicF32` is the raw 32-bit cell;
//! the typed cells below keep their values inside the engine's fixed-point
//! ranges by construction, so nothing the audio thread reads from them can
//! push a later computation out of bounds.

use vstd::prelude::*;

use crate::waveform::Waveform;
use crate::UNIT;

verus! {

/// A shared cell for one 32-bit scalar, stored as its raw bit pattern in an
/// atomic word.  An `f32` travels through it as `f32::to_bits` /
/// `f32::from_bits`; the typed cells below use it for their own encodings.
///
/// Loads and stores from different threads interleave freely, so nothing is
/// promised about which of the stored words a load observes — only that it
/// observes one whole word.  Callers that need a bounded value re-check the
/// word they got.
pub struct AtomicF32 {
    bits: std::sync::atomic::AtomicU32,
}

impl AtomicF32 {
    pub fn new(bits: u32) -> AtomicF32 {
        AtomicF32 { bits: std::sync::atomic::AtomicU32::new(bits) }
    }

    pub fn load(&self) -> u32 {
        self.bits.load(std::sync::atomic::Ordering::Acquire)
    }

    pub fn store(&self, bits: u32) {
        self.bits.store(bits, std::sync::atomic::Ordering::Release)
    }
}

/// A shared cell for a level in `0 ..= UNIT` fixed-point units: master gain,
/// oscillator gain, or the sustain target.  Every value written through this
/// interface is a legal level, and a load clamps the word it observed, so a
/// reader always gets a level no matter how writes interleave.
pub struct AtomicLevel {
    cell: AtomicF32,
}

impl AtomicLevel {
    pub fn new(level: u32) -> (c: AtomicLevel)
        requires
            level <= UNIT,
    {
        AtomicLevel { cell: AtomicF32::new(level) }
    }

    pub fn load(&self) -> (level: u32)
        ensures
            level <= UNIT,
    {
        let v = self.cell.load();
        if v > UNIT {
            UNIT
        } else {
            v
        }
    }

    pub fn store(&self, level: u32)
        requires
            level <= UNIT,
    {
        self.cell.store(level)
    }
}

/// A shared cell for an envelope stage length, counted in output samples.
/// Any count is legal; a non-positive stage means an instantaneous
/// transition.
pub struct AtomicDuration {
    cell: AtomicF32,
}

impl AtomicDuration {
    pub fn new(samples: u32) -> AtomicDuration {
        AtomicDuration { cell: AtomicF32::new(samples) }
    }

    pub fn load(&self) -> u32 {
        self.cell.load()
    }

    pub fn store(&self, samples: u32) {
        self.cell.store(samples)
    }
}

/// A shared cell for a boolean flag, stored as 0 or 1.
pub struct AtomicFlag {
    cell: AtomicF32,
}

impl AtomicFlag {
    pub fn new(value: bool) -> AtomicFlag {
        AtomicFlag { cell: AtomicF32::new(if value { 1 } else { 0 }) }
    }

    pub fn load(&self) -> bool {
        self.cell.load() != 0
    }

    pub fn store(&self, value: bool) {
        self.cell.store(if value { 1 } else { 0 })
    }
}

/// A shared cell for the pressed-key bitmask: bit `i` set means the key with
/// index `i` is currently down.  The engine reads the whole membership in one
/// load, so per-key changes are never observed half-applied.
pub struct AtomicKeys {
    cell: AtomicF32,
}

impl AtomicKeys {
    pub fn new(mask: u32) -> AtomicKeys {
        AtomicKeys { cell: AtomicF32::new(mask) }
    }

    pub fn load(&self) -> u32 {
        self.cell.load()
    }

    pub fn store(&self, mask: u32) {
        self.cell.store(mask)
    }
}

/// A shared cell for a waveform kind, stored as its integer code.  Only legal
/// codes are ever written through this interface; a word no encoder produces
/// decodes to the default sine kind instead of tearing down the audio thread.
pub struct AtomicWaveform {
    cell: AtomicF32,
}

impl AtomicWaveform {
    pub fn new(v: Waveform) -> AtomicWaveform {
        AtomicWaveform { cell: AtomicF32::new(v.code()) }
    }

    pub fn load(&self) -> Waveform {
        let c = self.cell.load();
        if c == 2 {
            Waveform::Square
        } else if c == 3 {
            Waveform::Saw
        } else if c == 4 {
            Waveform::Triangle
        } else {
            Waveform::Sin
        }
    }

    pub fn store(&self, v: Waveform) {
        self.cell.store(v.code())
    }
}

} // verus!
