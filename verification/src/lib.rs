//! A polyphonic software synthesizer core.
//!
//! The engine turns the set of currently pressed keys and a handful of live
//! tunable parameters (master gain, per-oscillator waveform/enable/gain, ADSR
//! envelope times) into a deterministic stream of audio samples.  All signal
//! values are fixed-point integers: an amplitude or gain of 1.0 is `UNIT`,
//! and a full oscillator cycle spans `PHASE_PERIOD` phase steps.  The
//! surrounding application converts to and from floating point at the audio
//! device boundary.

use vstd::prelude::*;

pub mod atomicf;
pub mod envelope;
pub mod keyboard;
pub mod oscilator;
pub mod synthesizer;
pub mod waveform;

verus! {

/// Fixed-point scale: the integer that stands for an amplitude, gain or
/// sample value of exactly 1.0.  Levels live in `0 ..= UNIT`; oscillator
/// samples live in `-UNIT ..= UNIT`.
pub const UNIT: u32 = 65536;

/// Length of one oscillator cycle in phase-accumulator steps.  A phase
/// accumulator is kept in `0 .. PHASE_PERIOD` and wraps modulo this bound.
pub const PHASE_PERIOD: u64 = 4294967296;

/// Number of playable keys: one octave of twelve semitones.
pub const KEY_COUNT: usize = 12;

} // verus!
