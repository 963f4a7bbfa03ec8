use virtsynth::atomicf::{AtomicF32, AtomicLevel, AtomicWaveform};
use virtsynth::envelope::{AdsrCells, ADSR};
use virtsynth::keyboard::{Key, KeyBitflags, Osc};
use virtsynth::oscilator::Oscilator;
use virtsynth::waveform::Waveform;

const ALL_KEYS: [Key; 12] = [
    Key::C4,
    Key::CS,
    Key::D4,
    Key::DS,
    Key::E4,
    Key::F4,
    Key::FS,
    Key::G4,
    Key::GS,
    Key::A4,
    Key::AS,
    Key::B4,
];

#[test]
fn freq_reference_pitch() {
    assert_eq!(Key::A4.freq(), 440000);
    assert_eq!(Key::C4.freq(), 261626);
    assert_eq!(Key::B4.freq(), 493883);
}

#[test]
fn freq_monotonic_in_index() {
    for w in ALL_KEYS.windows(2) {
        assert!(w[0].freq() < w[1].freq());
    }
}

#[test]
fn freq_matches_equal_temperament() {
    for (i, k) in ALL_KEYS.iter().enumerate() {
        let exact = 440000.0f64 * 2.0f64.powf((i as f64 - 9.0) / 12.0);
        assert!((k.freq() as f64 - exact).abs() <= 0.5);
    }
}

#[test]
fn key_index_roundtrip() {
    for i in 0..12 {
        let k = Key::from_zero_index(i);
        assert_eq!(k.index(), i);
        assert_eq!(k, ALL_KEYS[i]);
    }
}

#[test]
fn bitflag_values() {
    for (i, k) in ALL_KEYS.iter().enumerate() {
        assert_eq!(k.bitflag(), 1usize << i);
        assert_eq!(Key::from_bitflag(k.bitflag()), *k);
    }
}

#[test]
fn all_keys_mask() {
    let all = KeyBitflags::all();
    assert_eq!(all.0, 0b111111111111);
    assert_eq!(all.1, 1);
}

#[test]
fn bitflags_walk_all() {
    let mut it = KeyBitflags::all();
    let mut seen = Vec::new();
    while let Some(k) = it.next() {
        seen.push(k);
    }
    assert_eq!(seen, ALL_KEYS.to_vec());
}

#[test]
fn bitflags_walk_sparse() {
    let mut it = KeyBitflags(Key::C4.bitflag() | Key::D4.bitflag() | Key::B4.bitflag(), 1);
    assert_eq!(it.next(), Some(Key::C4));
    assert_eq!(it.next(), Some(Key::D4));
    assert_eq!(it.next(), Some(Key::B4));
    assert_eq!(it.next(), None);
    assert_eq!(it.next(), None);
}

#[test]
fn waveform_code_roundtrip() {
    for w in [Waveform::Sin, Waveform::Square, Waveform::Saw, Waveform::Triangle] {
        assert_eq!(Waveform::from_code(w.code()), w);
    }
    assert_eq!(Waveform::Sin.code(), 1);
    assert_eq!(Waveform::Triangle.code(), 4);
}

#[test]
fn atomic_bits_carry_f32() {
    let cell = AtomicF32::new(0.0f32.to_bits());
    cell.store(0.25f32.to_bits());
    assert_eq!(f32::from_bits(cell.load()), 0.25);
    cell.store((-1.5f32).to_bits());
    assert_eq!(f32::from_bits(cell.load()), -1.5);
}

#[test]
fn atomic_level_holds_value() {
    let cell = AtomicLevel::new(0);
    cell.store(65536);
    assert_eq!(cell.load(), 65536);
    cell.store(123);
    assert_eq!(cell.load(), 123);
}

#[test]
fn atomic_waveform_holds_value() {
    let cell = AtomicWaveform::new(Waveform::Sin);
    assert_eq!(cell.load(), Waveform::Sin);
    cell.store(Waveform::Saw);
    assert_eq!(cell.load(), Waveform::Saw);
}

#[test]
fn adsr_snapshot_reads_its_cells() {
    let cells = AdsrCells::new(10, 20, 30, 40);
    let mut a = ADSR::new();
    a.update(&cells);
    assert_eq!((a.attack, a.decay, a.sustain, a.release), (10, 20, 30, 40));
}

#[test]
fn oscillator_snapshot_reads_its_cells() {
    let cells = Osc::new(true, Waveform::Triangle, 1234);
    let mut o = Oscilator::new();
    assert!(!o.active);
    o.update(&cells);
    assert!(o.active);
    assert_eq!(o.waveform, Waveform::Triangle);
    assert_eq!(o.gain, 1234);
}
