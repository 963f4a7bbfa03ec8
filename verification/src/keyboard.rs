//! The playable keys and the shared parameter table.
//!
//! A `Key` is one of twelve fixed pitches spanning the octave from middle C
//! up to B, with A at 440 Hz; its frequency is carried in millihertz so the
//! phase arithmetic stays exact.  The pressed-key membership travels between
//! threads as a twelve-bit mask, one bit per key index.

use vstd::prelude::*;

use crate::atomicf::{AtomicFlag, AtomicKeys, AtomicLevel, AtomicWaveform};
use crate::envelope::AdsrCells;
use crate::waveform::Waveform;
use crate::{KEY_COUNT, UNIT};

verus! {

/// One of the twelve playable pitches, middle C up to B.
#[derive(Clone, Copy, PartialEq, Eq, Structural, Hash, Debug)]
pub enum Key {
    C4,
    CS,
    D4,
    DS,
    E4,
    F4,
    FS,
    G4,
    GS,
    A4,
    AS,
    B4,
}

/// The slot index of a key: its semitone distance above middle C.
pub open spec fn spec_key_index(k: Key) -> int {
    match k {
        Key::C4 => 0,
        Key::CS => 1,
        Key::D4 => 2,
        Key::DS => 3,
        Key::E4 => 4,
        Key::F4 => 5,
        Key::FS => 6,
        Key::G4 => 7,
        Key::GS => 8,
        Key::A4 => 9,
        Key::AS => 10,
        Key::B4 => 11,
    }
}

/// Each key's pitch in millihertz: `440000 * 2^((i - 9) / 12)` rounded to the
/// nearest millihertz, where `i` is the key's slot index (so A sits at
/// exactly 440 Hz).
pub open spec fn spec_key_freq(k: Key) -> u32 {
    match k {
        Key::C4 => 261626,
        Key::CS => 277183,
        Key::D4 => 293665,
        Key::DS => 311127,
        Key::E4 => 329628,
        Key::F4 => 349228,
        Key::FS => 369994,
        Key::G4 => 391995,
        Key::GS => 415305,
        Key::A4 => 440000,
        Key::AS => 466164,
        Key::B4 => 493883,
    }
}

/// The pitch of the key in a given slot.
pub open spec fn spec_index_freq(i: int) -> u32 {
    if i == 0 {
        261626
    } else if i == 1 {
        277183
    } else if i == 2 {
        293665
    } else if i == 3 {
        311127
    } else if i == 4 {
        329628
    } else if i == 5 {
        349228
    } else if i == 6 {
        369994
    } else if i == 7 {
        391995
    } else if i == 8 {
        415305
    } else if i == 9 {
        440000
    } else if i == 10 {
        466164
    } else {
        493883
    }
}

/// The single-bit mask standing for a key in the pressed-key bitmask.
pub open spec fn spec_bitflag(k: Key) -> usize {
    match k {
        Key::C4 => 1,
        Key::CS => 2,
        Key::D4 => 4,
        Key::DS => 8,
        Key::E4 => 16,
        Key::F4 => 32,
        Key::FS => 64,
        Key::G4 => 128,
        Key::GS => 256,
        Key::A4 => 512,
        Key::AS => 1024,
        Key::B4 => 2048,
    }
}

/// Whether a word is the single-bit mask of some key.
pub open spec fn is_key_flag(b: usize) -> bool {
    b == 1 || b == 2 || b == 4 || b == 8 || b == 16 || b == 32 || b == 64 || b == 128 || b == 256
        || b == 512 || b == 1024 || b == 2048
}

impl Key {
    /// This key's slot index, usable directly as an array index.
    pub fn index(self) -> (i: usize)
        ensures
            i == spec_key_index(self),
            i < KEY_COUNT,
    {
        match self {
            Key::C4 => 0,
            Key::CS => 1,
            Key::D4 => 2,
            Key::DS => 3,
            Key::E4 => 4,
            Key::F4 => 5,
            Key::FS => 6,
            Key::G4 => 7,
            Key::GS => 8,
            Key::A4 => 9,
            Key::AS => 10,
            Key::B4 => 11,
        }
    }

    /// This key's pitch in millihertz.
    pub fn freq(self) -> (f: u32)
        ensures
            f == spec_key_freq(self),
            f == spec_index_freq(spec_key_index(self)),
    {
        match self {
            Key::C4 => 261626,
            Key::CS => 277183,
            Key::D4 => 293665,
            Key::DS => 311127,
            Key::E4 => 329628,
            Key::F4 => 349228,
            Key::FS => 369994,
            Key::G4 => 391995,
            Key::GS => 415305,
            Key::A4 => 440000,
            Key::AS => 466164,
            Key::B4 => 493883,
        }
    }

    /// This key's bit in the pressed-key bitmask.
    pub fn bitflag(self) -> (b: usize)
        ensures
            b == spec_bitflag(self),
    {
        match self {
            Key::C4 => 0b000000000001,
            Key::CS => 0b000000000010,
            Key::D4 => 0b000000000100,
            Key::DS => 0b000000001000,
            Key::E4 => 0b000000010000,
            Key::F4 => 0b000000100000,
            Key::FS => 0b000001000000,
            Key::G4 => 0b000010000000,
            Key::GS => 0b000100000000,
            Key::A4 => 0b001000000000,
            Key::AS => 0b010000000000,
            Key::B4 => 0b100000000000,
        }
    }

    /// The key whose bit a single-bit mask holds.  A word that is not a
    /// key's bit would signal a broken caller invariant, so it is ruled out.
    pub fn from_bitflag(bitflag: usize) -> (k: Key)
        requires
            is_key_flag(bitflag),
        ensures
            spec_bitflag(k) == bitflag,
    {
        match bitflag {
            0b000000000001 => Key::C4,
            0b000000000010 => Key::CS,
            0b000000000100 => Key::D4,
            0b000000001000 => Key::DS,
            0b000000010000 => Key::E4,
            0b000000100000 => Key::F4,
            0b000001000000 => Key::FS,
            0b000010000000 => Key::G4,
            0b000100000000 => Key::GS,
            0b001000000000 => Key::A4,
            0b010000000000 => Key::AS,
            _ => Key::B4,
        }
    }

    /// The key occupying a given slot.
    pub fn from_zero_index(index: usize) -> (k: Key)
        requires
            index < KEY_COUNT,
        ensures
            spec_key_index(k) == index,
    {
        match index {
            0 => Key::C4,
            1 => Key::CS,
            2 => Key::D4,
            3 => Key::DS,
            4 => Key::E4,
            5 => Key::F4,
            6 => Key::FS,
            7 => Key::G4,
            8 => Key::GS,
            9 => Key::A4,
            10 => Key::AS,
            _ => Key::B4,
        }
    }
}

/// Pitch ordering: a key's frequency grows strictly with its slot index.
pub proof fn lemma_freq_monotonic(i: int, j: int)
    requires
        0 <= i < j < KEY_COUNT,
    ensures
        spec_index_freq(i) < spec_index_freq(j),
{
}

/// The key a single-bit mask stands for.
pub open spec fn spec_key_of_flag(b: usize) -> Key {
    if b == 1 {
        Key::C4
    } else if b == 2 {
        Key::CS
    } else if b == 4 {
        Key::D4
    } else if b == 8 {
        Key::DS
    } else if b == 16 {
        Key::E4
    } else if b == 32 {
        Key::F4
    } else if b == 64 {
        Key::FS
    } else if b == 128 {
        Key::G4
    } else if b == 256 {
        Key::GS
    } else if b == 512 {
        Key::A4
    } else if b == 1024 {
        Key::AS
    } else {
        Key::B4
    }
}

/// A legal cursor for walking a key bitmask: either some key's bit, or a
/// value past the last key's bit (the exhausted cursor).
pub open spec fn spec_cursor_ok(c: usize) -> bool {
    is_key_flag(c) || c > 2048
}

/// The first key at or above the cursor bit whose bit is set in the mask.
pub open spec fn spec_next_key(mask: usize, cursor: usize) -> Option<Key>
    decreases 4096 - cursor,
    when 1 <= cursor
{
    if cursor > 2048 {
        None
    } else if mask & cursor != 0 {
        Some(spec_key_of_flag(cursor))
    } else {
        spec_next_key(mask, (cursor * 2) as usize)
    }
}

/// A pressed-key bitmask paired with a walk cursor: field `0` is the mask,
/// field `1` the bit the walk has reached.
#[derive(Clone, Copy, PartialEq, Eq, Structural, Debug)]
pub struct KeyBitflags(pub usize, pub usize);

impl KeyBitflags {
    /// The mask with every key's bit set, with the walk at its start.
    pub fn all() -> (r: KeyBitflags)
        ensures
            r.0 == 4095,
            r.1 == 1,
    {
        let mask: usize = Key::C4.bitflag() | Key::CS.bitflag() | Key::D4.bitflag()
            | Key::DS.bitflag() | Key::E4.bitflag() | Key::F4.bitflag() | Key::FS.bitflag()
            | Key::G4.bitflag() | Key::GS.bitflag() | Key::A4.bitflag() | Key::AS.bitflag()
            | Key::B4.bitflag();
        proof {
            assert(1usize | 2 | 4 | 8 | 16 | 32 | 64 | 128 | 256 | 512 | 1024 | 2048 == 4095)
                by (bit_vector);
        }
        KeyBitflags(mask, 1)
    }

    /// Advance the walk to the next pressed key, if any, and past it.
    pub fn next(&mut self) -> (r: Option<Key>)
        requires
            spec_cursor_ok(old(self).1),
        ensures
            r == spec_next_key(old(self).0, old(self).1),
            final (self).0 == old(self).0,
            spec_cursor_ok(final (self).1),
            match r {
                Some(k) => final (self).1 == 2 * spec_bitflag(k),
                None => final (self).1 > 2048,
            },
    {
        if self.1 > 2048 {
            return None;
        }
        while self.1 <= 2048
            invariant
                self.0 == old(self).0,
                1 <= self.1,
                spec_cursor_ok(self.1),
                spec_cursor_ok(old(self).1),
                spec_next_key(self.0, self.1) == spec_next_key(old(self).0, old(self).1),
            decreases 4096 - self.1,
        {
            if (self.0 & self.1) > 0 {
                let key = Key::from_bitflag(self.1);
                self.1 = self.1 * 2;
                return Some(key);
            }
            self.1 = self.1 * 2;
        }
        None
    }
}

/// One oscillator voice's shared, UI-writable parameter cells: whether the
/// voice is mixed in at all, which waveform it generates, and its own gain.
pub struct Osc {
    pub active: AtomicFlag,
    pub waveform: AtomicWaveform,
    pub gain: AtomicLevel,
}

impl Osc {
    /// Cells preloaded with the given voice configuration.
    pub fn new(active: bool, waveform: Waveform, gain: u32) -> Osc
        requires
            gain <= UNIT,
    {
        Osc {
            active: AtomicFlag::new(active),
            waveform: AtomicWaveform::new(waveform),
            gain: AtomicLevel::new(gain),
        }
    }
}

/// The whole table of shared parameter cells, allocated once and then read
/// by the engine and written by the UI for the life of the stream.
pub struct Params {
    pub gain: AtomicLevel,
    pub adsr: AdsrCells,
    pub active_keys: AtomicKeys,
    pub osc1: Osc,
    pub osc2: Osc,
    pub osc3: Osc,
}

impl Params {
    /// The table in its start-up configuration: master gain at one half, a
    /// tenth of a second of attack and release, no decay, full sustain, and
    /// a single sine voice at unity gain.
    pub fn new(sample_rate: u32) -> Params {
        Params {
            gain: AtomicLevel::new(UNIT / 2),
            adsr: AdsrCells::new(sample_rate / 10, 0, UNIT, sample_rate / 10),
            active_keys: AtomicKeys::new(0),
            osc1: Osc::new(true, Waveform::Sin, UNIT),
            osc2: Osc::new(false, Waveform::Sin, UNIT),
            osc3: Osc::new(false, Waveform::Sin, UNIT),
        }
    }

    /// Replace the entire pressed-key membership in one store.
    pub fn set_active_keys(&self, active_keys: u32) {
        self.active_keys.store(active_keys);
    }
}

} // verus!
