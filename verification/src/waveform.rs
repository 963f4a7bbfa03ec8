//! The waveform kinds an oscillator voice can produce.

use vstd::prelude::*;

verus! {

/// The shape of the periodic signal one oscillator voice generates.
#[derive(Clone, Copy, PartialEq, Eq, Structural, Debug)]
pub enum Waveform {
    Sin,
    Square,
    Saw,
    Triangle,
}

/// The integer code under which a waveform kind is stored in a shared
/// parameter cell.  Codes are nonzero so that a cleared cell is
/// distinguishable from every legal value.
pub open spec fn spec_wave_code(w: Waveform) -> u32 {
    match w {
        Waveform::Sin => 1,
        Waveform::Square => 2,
        Waveform::Saw => 3,
        Waveform::Triangle => 4,
    }
}

/// The waveform kind a stored code decodes to.  Only codes written by
/// `Waveform::code` ever reach a decoder in correct operation; any other
/// word falls back to the sine kind rather than failing mid-buffer.
pub open spec fn spec_wave_of_code(c: u32) -> Waveform {
    if c == 2 {
        Waveform::Square
    } else if c == 3 {
        Waveform::Saw
    } else if c == 4 {
        Waveform::Triangle
    } else {
        Waveform::Sin
    }
}

impl Waveform {
    /// Encode this kind as its storage code.
    pub fn code(self) -> (c: u32)
        ensures
            c == spec_wave_code(self),
    {
        match self {
            Waveform::Sin => 1,
            Waveform::Square => 2,
            Waveform::Saw => 3,
            Waveform::Triangle => 4,
        }
    }

    /// Decode a storage code.  A code no encoder produces would signal a
    /// broken internal invariant, so callers must rule it out.
    pub fn from_code(c: u32) -> (w: Waveform)
        requires
            1 <= c <= 4,
        ensures
            w == spec_wave_of_code(c),
            spec_wave_code(w) == c,
    {
        if c == 2 {
            Waveform::Square
        } else if c == 3 {
            Waveform::Saw
        } else if c == 4 {
            Waveform::Triangle
        } else {
            Waveform::Sin
        }
    }
}

/// Encoding and decoding waveform codes are mutually inverse: every kind
/// survives a round trip through its storage code.
pub proof fn lemma_wave_code_roundtrip(w: Waveform)
    ensures
        spec_wave_of_code(spec_wave_code(w)) == w,
{
}

} // verus!
