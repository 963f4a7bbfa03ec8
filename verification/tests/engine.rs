use virtsynth::keyboard::{Key, Params};
use virtsynth::oscilator::{div_trunc64, sine_wave, wave_value, Oscilator};
use virtsynth::synthesizer::Engine;
use virtsynth::waveform::Waveform;
use virtsynth::{PHASE_PERIOD, UNIT};

const SR: u32 = 48000;

fn buffer(frames: usize) -> Vec<i64> {
    vec![0i64; frames]
}

#[test]
fn truncating_division() {
    assert_eq!(div_trunc64(7, 2), 3);
    assert_eq!(div_trunc64(-7, 2), -3);
    assert_eq!(div_trunc64(-196608, 65536), -3);
    assert_eq!(div_trunc64(0, 5), 0);
}

#[test]
fn waveform_shapes_exact() {
    assert_eq!(wave_value(Waveform::Square, 0), 65536);
    assert_eq!(wave_value(Waveform::Square, 32767), 65536);
    assert_eq!(wave_value(Waveform::Square, 32768), -65536);
    assert_eq!(wave_value(Waveform::Square, 65535), -65536);

    assert_eq!(wave_value(Waveform::Saw, 0), -65536);
    assert_eq!(wave_value(Waveform::Saw, 32768), 0);
    assert_eq!(wave_value(Waveform::Saw, 49152), 32768);

    assert_eq!(wave_value(Waveform::Triangle, 0), 65536);
    assert_eq!(wave_value(Waveform::Triangle, 16384), 0);
    assert_eq!(wave_value(Waveform::Triangle, 32768), -65536);
    assert_eq!(wave_value(Waveform::Triangle, 49152), 0);

    assert_eq!(sine_wave(0), 0);
    assert_eq!(sine_wave(16384), 65536);
    assert_eq!(sine_wave(32768), 0);
    assert_eq!(sine_wave(49152), -65536);
}

#[test]
fn sine_tracks_the_real_sine() {
    for frac in (0..65536u32).step_by(111) {
        let got = sine_wave(frac) as f64 / 65536.0;
        let want = (2.0 * std::f64::consts::PI * frac as f64 / 65536.0).sin();
        assert!((got - want).abs() < 0.002, "frac {frac}: {got} vs {want}");
    }
}

#[test]
fn oscillator_tick_is_gain_scaled() {
    let o = Oscilator { waveform: Waveform::Square, active: true, gain: UNIT / 2 };
    assert_eq!(o.tick(0), 32768);
    assert_eq!(o.tick(40000), -32768);
    let quiet = Oscilator { waveform: Waveform::Square, active: true, gain: 0 };
    assert_eq!(quiet.tick(0), 0);
}

#[test]
fn fresh_engine_state() {
    let engine = Engine::new(SR);
    assert_eq!(engine.sample_rate, SR);
    let a = engine.key_tracker.adsr;
    assert_eq!((a.attack, a.decay, a.sustain, a.release), (0, 0, UNIT, 0));
    for o in [engine.osc1, engine.osc2, engine.osc3] {
        assert_eq!(o.waveform, Waveform::Sin);
        assert!(!o.active);
        assert_eq!(o.gain, UNIT);
    }
    for e in engine.key_tracker.keys.iter() {
        assert_eq!(e.amplitude, 0);
    }
}

#[test]
fn silence_when_no_key_is_down() {
    let mut engine = Engine::new(SR);
    let params = Params::new(SR);
    let mut buf = buffer(960);
    engine.on_buffer(&params, &mut buf, 2);
    assert!(buf.iter().all(|&s| s == 0));

    // Still silent on later buffers.
    engine.on_buffer(&params, &mut buf, 2);
    assert!(buf.iter().all(|&s| s == 0));
}

#[test]
fn pressed_sine_key_attack_and_waveform() {
    // 48 kHz, 0.1 s attack, no decay, full sustain, one sine voice at unity
    // gain, master gain at one: press the lowest key at sample 0.
    let mut engine = Engine::new(SR);
    let params = Params::new(SR);
    params.gain.store(UNIT);
    params.adsr.attack.store(4800);
    params.adsr.release.store(4800);
    params.set_active_keys(1);

    let mut buf = buffer(4801);
    engine.on_buffer(&params, &mut buf, 1);
    // Full amplitude within one sample of the end of the attack ramp.
    assert_eq!(engine.key_tracker.keys[0].amplitude, UNIT);

    // Past the ramp the stream is exactly the sine voice itself, and close
    // to the ideal sine of the key's pitch.
    let inc = (PHASE_PERIOD as u128 * Key::C4.freq() as u128 / (1000 * SR as u128)) as u64;
    let mut buf2 = buffer(4800);
    engine.on_buffer(&params, &mut buf2, 1);
    let f0 = Key::C4.freq() as f64 / 1000.0;
    for (k, &s) in buf2.iter().enumerate() {
        let n = 4801 + k as u64;
        let phase = (n as u128 * inc as u128 % PHASE_PERIOD as u128) as u64;
        let frac = (phase >> 16) as u32;
        assert_eq!(s, wave_value(Waveform::Sin, frac), "frame {n}");
        let want = (2.0 * std::f64::consts::PI * f0 * n as f64 / SR as f64).sin();
        assert!((s as f64 / 65536.0 - want).abs() < 0.005, "frame {n}");
    }
}

#[test]
fn release_is_silent_from_the_deadline_on() {
    // Sustain a key fully, then release it with 0.2 s of release: amplitude
    // reaches exactly zero at or before sample 9600 and stays there.
    let mut engine = Engine::new(SR);
    let params = Params::new(SR);
    params.gain.store(UNIT);
    params.adsr.attack.store(0);
    params.adsr.release.store(9600);
    params.set_active_keys(1);
    let mut warmup = buffer(16);
    engine.on_buffer(&params, &mut warmup, 1);
    assert_eq!(engine.key_tracker.keys[0].amplitude, UNIT);

    params.set_active_keys(0);
    let mut buf = buffer(9599);
    engine.on_buffer(&params, &mut buf, 1);
    assert!(engine.key_tracker.keys[0].amplitude > 0);

    let mut tail = buffer(101);
    engine.on_buffer(&params, &mut tail, 1);
    assert_eq!(engine.key_tracker.keys[0].amplitude, 0);
    assert!(tail[1..].iter().all(|&s| s == 0));

    // Absent a re-press it stays silent.
    let mut more = buffer(256);
    engine.on_buffer(&params, &mut more, 1);
    assert_eq!(engine.key_tracker.keys[0].amplitude, 0);
    assert!(more.iter().all(|&s| s == 0));
}

#[test]
fn normalization_never_exceeds_master_gain() {
    // All twelve keys at full amplitude through three voices: the summed
    // contributing amplitude is far above one, yet no output sample's
    // magnitude may exceed the master gain.
    let mut engine = Engine::new(SR);
    let params = Params::new(SR);
    params.gain.store(UNIT);
    params.adsr.attack.store(0);
    params.osc2.active.store(true);
    params.osc2.waveform.store(Waveform::Square);
    params.osc2.gain.store(UNIT);
    params.osc3.active.store(true);
    params.osc3.waveform.store(Waveform::Saw);
    params.osc3.gain.store(UNIT / 2);
    params.set_active_keys(0b111111111111);

    let mut buf = buffer(2048);
    engine.on_buffer(&params, &mut buf, 1);
    assert!(buf.iter().all(|&s| -(UNIT as i64) <= s && s <= UNIT as i64));
    assert!(buf.iter().any(|&s| s != 0));

    // A quieter master gain bounds the output accordingly.
    params.gain.store(UNIT / 4);
    engine.on_buffer(&params, &mut buf, 1);
    let g = (UNIT / 4) as i64;
    assert!(buf.iter().all(|&s| -g <= s && s <= g));
}

#[test]
fn every_channel_of_a_frame_gets_the_same_sample() {
    let mut engine = Engine::new(SR);
    let params = Params::new(SR);
    params.adsr.attack.store(0);
    params.set_active_keys(0b10011);

    // Ten samples over three channels: three full frames and one partial.
    let mut buf = buffer(10);
    engine.on_buffer(&params, &mut buf, 3);
    for frame in buf.chunks(3) {
        assert!(frame.iter().all(|&s| s == frame[0]));
    }
}

#[test]
fn identical_snapshots_give_identical_buffers() {
    let make = || {
        let mut engine = Engine::new(SR);
        let params = Params::new(SR);
        params.gain.store(UNIT);
        params.adsr.attack.store(123);
        params.adsr.decay.store(77);
        params.adsr.sustain.store(UNIT / 3);
        params.adsr.release.store(456);
        params.osc2.active.store(true);
        params.osc2.waveform.store(Waveform::Triangle);
        params.set_active_keys(0b101000101);
        let mut buf = buffer(1500);
        engine.on_buffer(&params, &mut buf, 2);
        params.set_active_keys(0b000000010);
        engine.on_buffer(&params, &mut buf, 2);
        buf
    };
    assert_eq!(make(), make());
}
