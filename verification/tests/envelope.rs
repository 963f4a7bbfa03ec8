use virtsynth::envelope::ADSR;
use virtsynth::synthesizer::{KeyState, TrackElement};
use virtsynth::UNIT;

fn idle() -> TrackElement {
    TrackElement { state: KeyState::Released, amplitude: 0, position: 0, t_amplitude: 0 }
}

fn adsr(attack: u32, decay: u32, sustain: u32, release: u32) -> ADSR {
    ADSR { attack, decay, sustain, release }
}

#[test]
fn press_on_sounding_key_is_noop() {
    let a = adsr(4800, 0, UNIT, 4800);
    let mut e = idle();
    e.press();
    for _ in 0..10 {
        e.tick(&a);
    }
    let before = e;
    e.press();
    assert_eq!(e, before);

    // The same holds in Decay and Sustain.
    let mut e = idle();
    e.press();
    for _ in 0..4800 {
        e.tick(&a);
    }
    assert_eq!(e.state, KeyState::Decay);
    let before = e;
    e.press();
    assert_eq!(e, before);
    e.tick(&a);
    assert_eq!(e.state, KeyState::Sustain);
    let before = e;
    e.press();
    assert_eq!(e, before);
}

#[test]
fn release_on_released_key_is_noop() {
    let a = adsr(100, 0, UNIT, 100);
    let mut e = idle();
    let before = e;
    e.release();
    assert_eq!(e, before);

    e.press();
    for _ in 0..50 {
        e.tick(&a);
    }
    e.release();
    let before = e;
    e.release();
    assert_eq!(e, before);
}

#[test]
fn zero_attack_snaps_to_full_in_one_sample() {
    let a = adsr(0, 0, UNIT, 100);
    let mut e = idle();
    e.press();
    e.tick(&a);
    assert_eq!(e.amplitude, UNIT);
    assert_eq!(e.state, KeyState::Decay);
}

#[test]
fn attack_ramp_reaches_full_on_time() {
    // 0.1 s of attack at 48 kHz: full amplitude by sample 4800.
    let a = adsr(4800, 0, UNIT, 4800);
    let mut e = idle();
    e.press();
    for _ in 0..4799 {
        e.tick(&a);
    }
    assert!(e.amplitude < UNIT);
    e.tick(&a);
    assert_eq!(e.amplitude, UNIT);
}

#[test]
fn decay_ramp_settles_at_sustain() {
    let sustain = UNIT / 4;
    let a = adsr(0, 1000, sustain, 100);
    let mut e = idle();
    e.press();
    e.tick(&a);
    assert_eq!(e.amplitude, UNIT);
    let mut last = e.amplitude;
    for _ in 0..999 {
        e.tick(&a);
        assert!(e.amplitude <= last);
        last = e.amplitude;
    }
    e.tick(&a);
    assert_eq!(e.state, KeyState::Sustain);
    assert_eq!(e.amplitude, sustain);
}

#[test]
fn release_reaches_zero_exactly_on_time() {
    // A fully sustained key released with 0.2 s of release at 48 kHz must be
    // exactly silent at sample 9600 and stay silent.
    let a = adsr(0, 0, UNIT, 9600);
    let mut e = idle();
    e.press();
    e.tick(&a);
    e.tick(&a);
    assert_eq!(e.amplitude, UNIT);
    e.release();
    for _ in 0..9599 {
        e.tick(&a);
        assert!(e.amplitude > 0);
    }
    e.tick(&a);
    assert_eq!(e.amplitude, 0);
    for _ in 0..100 {
        e.tick(&a);
        assert_eq!(e.amplitude, 0);
        assert_eq!(e.state, KeyState::Released);
    }
}

#[test]
fn retrigger_mid_release_moves_one_ramp_step() {
    let a = adsr(4800, 0, UNIT, 4800);
    let mut e = idle();
    e.press();
    for _ in 0..4801 {
        e.tick(&a);
    }
    assert_eq!(e.amplitude, UNIT);
    e.release();
    for _ in 0..2400 {
        e.tick(&a);
    }
    assert_eq!(e.amplitude, UNIT / 2);
    let before = e.amplitude;
    e.press();
    e.tick(&a);
    let step = (UNIT - before) / 4800;
    assert_eq!(e.amplitude, before + step);
    assert!(e.amplitude - before <= step + 1);
}

#[test]
fn amplitude_stays_in_range_on_arbitrary_histories() {
    // A deterministic pseudo-random walk over press/release/tick with
    // assorted stage lengths, including zero-length ones.
    let cases = [
        adsr(0, 0, UNIT, 0),
        adsr(1, 1, 0, 1),
        adsr(7, 3, UNIT / 3, 5),
        adsr(4800, 1200, UNIT / 2, 9600),
        adsr(2, 0, UNIT, 100000),
    ];
    let mut rng: u64 = 0x12345678;
    for a in cases {
        let mut e = idle();
        for _ in 0..20000 {
            rng = rng.wrapping_mul(6364136223846793005).wrapping_add(1442695040888963407);
            match rng >> 61 {
                0 => e.press(),
                1 => e.release(),
                _ => e.tick(&a),
            }
            assert!(e.amplitude <= UNIT);
            assert!(e.t_amplitude <= UNIT);
        }
    }
}
