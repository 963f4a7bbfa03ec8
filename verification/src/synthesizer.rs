//! The real-time synthesis engine.
//!
//! One `TrackElement` envelope state machine and one phase accumulator exist
//! per key slot, allocated once at construction and re-triggered for the
//! life of the stream.  Every output sample, the engine advances all twelve
//! envelopes, sums the weighted output of the active oscillator voices over
//! all sounding keys, normalizes the sum so that many constructive voices
//! cannot clip, scales by the master gain, and writes the result into every
//! channel of the output frame.  All of it is integer arithmetic on the
//! fixed-point units of the crate root, so a buffer's content is a pure
//! function of the engine state and the parameter snapshot.

use vstd::pervasive::VecAdditionalExecFns;
use vstd::prelude::*;

use crate::envelope::ADSR;
use crate::keyboard::{spec_index_freq, spec_key_index, Key, Params};
use crate::oscilator::{div_trunc, div_trunc64, spec_osc_tick, spec_wave_value, Oscilator};
use crate::waveform::Waveform;
use crate::{KEY_COUNT, PHASE_PERIOD, UNIT};

verus! {

/// The stage an envelope is in.
#[derive(Clone, Copy, PartialEq, Eq, Structural, Debug)]
pub enum KeyState {
    Pressed,
    Decay,
    Sustain,
    Released,
}

/// One key slot's envelope state: the stage, the current output amplitude,
/// the number of samples spent in the stage, and the amplitude captured at
/// the last stage trigger (the ramp's starting level).
#[derive(Clone, Copy, PartialEq, Eq, Structural, Debug)]
pub struct TrackElement {
    pub state: KeyState,
    pub amplitude: u32,
    pub position: u64,
    pub t_amplitude: u32,
}

/// A legal envelope state keeps both amplitudes inside `0 ..= UNIT`.
pub open spec fn env_wf(e: TrackElement) -> bool {
    e.amplitude <= UNIT && e.t_amplitude <= UNIT
}

/// A stage position one sample later.  The count saturates rather than
/// wraps; saturation is reachable only ages after every ramp it could time
/// has finished.
pub open spec fn spec_bump(p: u64) -> u64 {
    if p == u64::MAX {
        p
    } else {
        (p + 1) as u64
    }
}

/// The envelope after a press event: a released key restarts its attack from
/// the amplitude it currently has, so a re-trigger never jumps; a key that is
/// already sounding is left exactly as it is.
pub open spec fn spec_press(e: TrackElement) -> TrackElement {
    if e.state is Released {
        TrackElement {
            state: KeyState::Pressed,
            amplitude: e.amplitude,
            position: 0,
            t_amplitude: e.amplitude,
        }
    } else {
        e
    }
}

/// The envelope after a release event: a sounding key begins its release from
/// the amplitude it currently has; a key already released is left exactly as
/// it is.
pub open spec fn spec_release(e: TrackElement) -> TrackElement {
    if e.state is Released {
        e
    } else {
        TrackElement {
            state: KeyState::Released,
            amplitude: e.amplitude,
            position: 0,
            t_amplitude: e.amplitude,
        }
    }
}

/// The amplitude `p` samples into an attack ramp that started at level `t`:
/// linear interpolation from `t` toward `UNIT` over `att` samples.
pub open spec fn spec_attack_amp(t: int, p: int, att: int) -> int {
    t + p * (UNIT - t) / att
}

/// The amplitude `p` samples into a decay ramp: linear interpolation from
/// `UNIT` down toward the sustain level over `dec` samples.
pub open spec fn spec_decay_amp(sus: int, p: int, dec: int) -> int {
    UNIT - p * (UNIT - sus) / dec
}

/// The amplitude `p` samples into a release ramp that started at level `t`:
/// linear interpolation from `t` down toward zero over `rel` samples.
pub open spec fn spec_release_amp(t: int, p: int, rel: int) -> int {
    t - p * t / rel
}

/// One sample step of the envelope state machine.  A stage whose length has
/// run out (or was zero to begin with) snaps to its target and moves on, so
/// a non-positive stage length never divides and acts as an instantaneous
/// transition.
pub open spec fn spec_env_tick(e: TrackElement, adsr: ADSR) -> TrackElement {
    match e.state {
        KeyState::Pressed => {
            let p = spec_bump(e.position);
            if p < adsr.attack {
                TrackElement {
                    state: KeyState::Pressed,
                    amplitude: spec_attack_amp(
                        e.t_amplitude as int,
                        p as int,
                        adsr.attack as int,
                    ) as u32,
                    position: p,
                    t_amplitude: e.t_amplitude,
                }
            } else {
                TrackElement {
                    state: KeyState::Decay,
                    amplitude: UNIT,
                    position: 0,
                    t_amplitude: e.t_amplitude,
                }
            }
        },
        KeyState::Decay => {
            let p = spec_bump(e.position);
            if p < adsr.decay {
                TrackElement {
                    state: KeyState::Decay,
                    amplitude: spec_decay_amp(adsr.sustain as int, p as int, adsr.decay as int)
                        as u32,
                    position: p,
                    t_amplitude: e.t_amplitude,
                }
            } else {
                TrackElement {
                    state: KeyState::Sustain,
                    amplitude: adsr.sustain,
                    position: p,
                    t_amplitude: e.t_amplitude,
                }
            }
        },
        KeyState::Sustain => {
            TrackElement {
                state: KeyState::Sustain,
                amplitude: adsr.sustain,
                position: e.position,
                t_amplitude: e.t_amplitude,
            }
        },
        KeyState::Released => {
            let p = spec_bump(e.position);
            if p < adsr.release {
                TrackElement {
                    state: KeyState::Released,
                    amplitude: spec_release_amp(
                        e.t_amplitude as int,
                        p as int,
                        adsr.release as int,
                    ) as u32,
                    position: p,
                    t_amplitude: e.t_amplitude,
                }
            } else {
                TrackElement {
                    state: KeyState::Released,
                    amplitude: 0,
                    position: p,
                    t_amplitude: e.t_amplitude,
                }
            }
        },
    }
}

/// A ramp never overshoots: `p` steps of a `d`-step ramp cover at most the
/// whole distance `k`.
proof fn lemma_ramp_bounds(p: int, k: int, d: int)
    requires
        1 <= p < d,
        0 <= k,
    ensures
        0 <= p * k / d <= k,
{
    assert(0 <= p * k / d <= k) by (nonlinear_arith)
        requires
            1 <= p < d && 0 <= k,
    ;
}

/// Amplitude safety: every envelope event and every sample step keeps the
/// amplitude (and the captured ramp start) inside `0 ..= UNIT`, for any
/// stage lengths and any legal sustain level.  Together with the start state
/// this bounds the amplitude on every reachable press/release/tick history.
pub proof fn lemma_env_tick_wf(e: TrackElement, adsr: ADSR)
    requires
        env_wf(e),
        adsr.wf(),
    ensures
        env_wf(spec_env_tick(e, adsr)),
{
    match e.state {
        KeyState::Pressed => {
            let p = spec_bump(e.position);
            if p < adsr.attack {
                lemma_ramp_bounds(p as int, UNIT - e.t_amplitude, adsr.attack as int);
            }
        },
        KeyState::Decay => {
            let p = spec_bump(e.position);
            if p < adsr.decay {
                lemma_ramp_bounds(p as int, UNIT - adsr.sustain, adsr.decay as int);
            }
        },
        KeyState::Sustain => {},
        KeyState::Released => {
            let p = spec_bump(e.position);
            if p < adsr.release {
                lemma_ramp_bounds(p as int, e.t_amplitude as int, adsr.release as int);
            }
        },
    }
}

/// Press and release events keep the amplitude bounds as they are.
pub proof fn lemma_env_event_wf(e: TrackElement)
    requires
        env_wf(e),
    ensures
        env_wf(spec_press(e)),
        env_wf(spec_release(e)),
{
}

/// Instantaneous attack: with a zero-length attack stage, a press on a
/// released key reaches full amplitude on the very next sample.
pub proof fn lemma_instant_attack(e: TrackElement, adsr: ADSR)
    requires
        env_wf(e),
        adsr.wf(),
        adsr.attack == 0,
        e.state is Released,
    ensures
        spec_env_tick(spec_press(e), adsr).state is Decay,
        spec_env_tick(spec_press(e), adsr).amplitude == UNIT,
{
}

/// Click-free re-trigger: pressing a released key mid-release moves the next
/// sample's amplitude by exactly one attack ramp step from the level the key
/// had at the trigger — never a jump.
pub proof fn lemma_retrigger_continuity(e: TrackElement, adsr: ADSR)
    requires
        env_wf(e),
        adsr.wf(),
        adsr.attack > 1,
        e.state is Released,
    ensures
        spec_env_tick(spec_press(e), adsr).amplitude == e.amplitude + (UNIT - e.amplitude as int)
            / (adsr.attack as int),
{
    let t = e.amplitude as int;
    lemma_ramp_bounds(1, UNIT - t, adsr.attack as int);
    assert(1 * (UNIT - t) == UNIT - t);
}

/// The computation `p * k / d` on machine words.
fn ramp_div(p: u64, k: u32, d: u32) -> (r: u32)
    requires
        1 <= d,
        p < d,
        k <= UNIT,
    ensures
        r == (p as int) * (k as int) / (d as int),
        r <= k,
{
    proof {
        assert((p as int) * (k as int) <= 281474976710656) by (nonlinear_arith)
            requires
                p <= 4294967295 && k <= 65536,
        ;
        if 1 <= p {
            lemma_ramp_bounds(p as int, k as int, d as int);
        }
    }
    let num: u64 = p * (k as u64);
    (num / (d as u64)) as u32
}

impl TrackElement {
    /// The idle slot every key starts from: released, fully silent.
    pub open spec fn spec_default() -> TrackElement {
        TrackElement { state: KeyState::Released, amplitude: 0, position: 0, t_amplitude: 0 }
    }

    /// Trigger a press event.  A key already in `Pressed`, `Decay` or
    /// `Sustain` is left untouched — pressing a sounding key is a no-op.
    pub fn press(&mut self)
        ensures
            *final (self) == spec_press(*old(self)),
            !(old(self).state is Released) ==> *final (self) == *old(self),
    {
        if self.state == KeyState::Released {
            self.state = KeyState::Pressed;
            self.position = 0;
            self.t_amplitude = self.amplitude;
        }
    }

    /// Trigger a release event.  A key already in `Released` is left
    /// untouched — releasing a released key is a no-op.
    pub fn release(&mut self)
        ensures
            *final (self) == spec_release(*old(self)),
            old(self).state is Released ==> *final (self) == *old(self),
    {
        if self.state != KeyState::Released {
            self.state = KeyState::Released;
            self.position = 0;
            self.t_amplitude = self.amplitude;
        }
    }

    /// Advance this envelope by one sample under the given parameters.
    pub fn tick(&mut self, adsr: &ADSR)
        requires
            env_wf(*old(self)),
            adsr.wf(),
        ensures
            *final (self) == spec_env_tick(*old(self), *adsr),
            env_wf(*final (self)),
    {
        proof {
            lemma_env_tick_wf(*self, *adsr);
        }
        match self.state {
            KeyState::Pressed => {
                let p = if self.position == u64::MAX {
                    self.position
                } else {
                    self.position + 1
                };
                if p < adsr.attack as u64 {
                    let step = ramp_div(p, UNIT - self.t_amplitude, adsr.attack);
                    self.amplitude = self.t_amplitude + step;
                    self.position = p;
                } else {
                    self.amplitude = UNIT;
                    self.position = 0;
                    self.state = KeyState::Decay;
                }
            },
            KeyState::Decay => {
                let p = if self.position == u64::MAX {
                    self.position
                } else {
                    self.position + 1
                };
                if p < adsr.decay as u64 {
                    let step = ramp_div(p, UNIT - adsr.sustain, adsr.decay);
                    self.amplitude = UNIT - step;
                    self.position = p;
                } else {
                    self.amplitude = adsr.sustain;
                    self.position = p;
                    self.state = KeyState::Sustain;
                }
            },
            KeyState::Sustain => {
                self.amplitude = adsr.sustain;
            },
            KeyState::Released => {
                let p = if self.position == u64::MAX {
                    self.position
                } else {
                    self.position + 1
                };
                if p < adsr.release as u64 {
                    let step = ramp_div(p, self.t_amplitude, adsr.release);
                    self.amplitude = self.t_amplitude - step;
                    self.position = p;
                } else {
                    self.amplitude = 0;
                    self.position = p;
                }
            },
        }
    }
}

impl Default for TrackElement {
    /// The idle slot state.
    fn default() -> (d: TrackElement)
        ensures
            d == TrackElement::spec_default(),
    {
        TrackElement { state: KeyState::Released, amplitude: 0, position: 0, t_amplitude: 0 }
    }
}

/// Whether the key with a given slot index is down in a pressed-key bitmask.
pub open spec fn spec_key_down(mask: u32, i: int) -> bool {
    (mask >> (i as u32)) & 1 == 1
}

/// The envelope event one bitmask snapshot delivers to one slot: a press
/// where the key's bit is set, a release where it is clear.
pub open spec fn spec_update_slot(e: TrackElement, down: bool) -> TrackElement {
    if down {
        spec_press(e)
    } else {
        spec_release(e)
    }
}

/// One envelope state machine per key slot, advanced together once per
/// output sample under one ADSR snapshot.
pub struct KeyAmplitudeTracker {
    pub keys: Vec<TrackElement>,
    pub adsr: ADSR,
}

impl KeyAmplitudeTracker {
    /// A legal tracker has exactly one slot per key, every slot amplitude in
    /// range, and a legal parameter snapshot.
    pub open spec fn wf(self) -> bool {
        &&& self.keys.len() == KEY_COUNT
        &&& forall|i: int| 0 <= i < KEY_COUNT ==> env_wf(#[trigger] self.keys[i])
        &&& self.adsr.wf()
    }

    /// Twelve idle slots and the start-up parameter snapshot.
    pub fn new() -> (t: KeyAmplitudeTracker)
        ensures
            t.wf(),
            t.adsr == (ADSR { attack: 0, decay: 0, sustain: UNIT, release: 0 }),
            forall|i: int| 0 <= i < KEY_COUNT ==> t.keys[i] == TrackElement::spec_default(),
    {
        let mut keys: Vec<TrackElement> = Vec::new();
        let mut i: usize = 0;
        while i < KEY_COUNT
            invariant
                i <= KEY_COUNT,
                keys.len() == i,
                forall|j: int| 0 <= j < i ==> keys[j] == TrackElement::spec_default(),
            decreases KEY_COUNT - i,
        {
            keys.push(TrackElement::default());
            i += 1;
        }
        KeyAmplitudeTracker { keys, adsr: ADSR::new() }
    }

    /// Feed one bitmask snapshot and one ADSR snapshot to all twelve slots:
    /// set keys get a press event, clear keys a release event, and the
    /// snapshot becomes the parameters for the following sample steps.
    pub fn update(&mut self, active: u32, adsr: ADSR)
        requires
            old(self).wf(),
            adsr.wf(),
        ensures
            final (self).wf(),
            final (self).adsr == adsr,
            forall|i: int|
                0 <= i < KEY_COUNT ==> final (self).keys[i] == spec_update_slot(
                    old(self).keys[i],
                    spec_key_down(active, i),
                ),
    {
        self.adsr = adsr;
        let mut i: usize = 0;
        while i < KEY_COUNT
            invariant
                i <= KEY_COUNT,
                self.keys.len() == KEY_COUNT,
                self.adsr == adsr,
                adsr.wf(),
                forall|j: int| 0 <= j < KEY_COUNT ==> env_wf(#[trigger] self.keys[j]),
                forall|j: int|
                    0 <= j < i ==> self.keys[j] == spec_update_slot(
                        old(self).keys[j],
                        spec_key_down(active, j),
                    ),
                forall|j: int| i <= j < KEY_COUNT ==> self.keys[j] == old(self).keys[j],
            decreases KEY_COUNT - i,
        {
            let mut e = self.keys[i];
            if (active >> (i as u32)) & 1 == 1 {
                e.press();
            } else {
                e.release();
            }
            self.keys.set(i, e);
            i += 1;
        }
    }

    /// Advance all twelve envelopes by one sample.
    pub fn tick(&mut self)
        requires
            old(self).wf(),
        ensures
            final (self).wf(),
            final (self).adsr == old(self).adsr,
            forall|i: int|
                0 <= i < KEY_COUNT ==> final (self).keys[i] == spec_env_tick(
                    old(self).keys[i],
                    old(self).adsr,
                ),
    {
        let adsr = self.adsr;
        let mut i: usize = 0;
        while i < KEY_COUNT
            invariant
                i <= KEY_COUNT,
                self.keys.len() == KEY_COUNT,
                self.adsr == adsr,
                adsr.wf(),
                forall|j: int| 0 <= j < KEY_COUNT ==> env_wf(#[trigger] self.keys[j]),
                forall|j: int|
                    0 <= j < i ==> self.keys[j] == spec_env_tick(old(self).keys[j], adsr),
                forall|j: int| i <= j < KEY_COUNT ==> self.keys[j] == old(self).keys[j],
            decreases KEY_COUNT - i,
        {
            let mut e = self.keys[i];
            e.tick(&adsr);
            self.keys.set(i, e);
            i += 1;
        }
    }
}

/// One oscillator phase accumulator per key slot, each in
/// `0 .. PHASE_PERIOD`.
///
/// Policy: a slot's phase only moves while its key sounds, and is never
/// reset by a trigger — a re-attacked key continues its waveform from
/// wherever the previous note left off.
pub struct PhaseStore {
    phases: Vec<u64>,
}

impl View for PhaseStore {
    type V = Seq<u64>;

    closed spec fn view(&self) -> Seq<u64> {
        self.phases@
    }
}

impl PhaseStore {
    /// A legal store has one accumulator per key, each inside one cycle.
    pub open spec fn wf(self) -> bool {
        &&& self@.len() == KEY_COUNT
        &&& forall|i: int| 0 <= i < KEY_COUNT ==> #[trigger] self@[i] < PHASE_PERIOD
    }

    /// All accumulators at the start of their cycle.
    pub fn new() -> (s: PhaseStore)
        ensures
            s.wf(),
            forall|i: int| 0 <= i < KEY_COUNT ==> s@[i] == 0,
    {
        let mut phases: Vec<u64> = Vec::new();
        let mut i: usize = 0;
        while i < KEY_COUNT
            invariant
                i <= KEY_COUNT,
                phases.len() == i,
                forall|j: int| 0 <= j < i ==> phases[j] == 0,
            decreases KEY_COUNT - i,
        {
            phases.push(0);
            i += 1;
        }
        PhaseStore { phases }
    }

    /// The accumulator of one key's slot.
    pub fn get_phase(&self, key: Key) -> (p: u64)
        requires
            self.wf(),
        ensures
            p == self@[spec_key_index(key)],
            p < PHASE_PERIOD,
    {
        self.phases[key.index()]
    }

    /// Store one key's advanced accumulator.
    pub fn set_phase(&mut self, key: Key, p: u64)
        requires
            old(self).wf(),
            p < PHASE_PERIOD,
        ensures
            final (self).wf(),
            final (self)@ == old(self)@.update(spec_key_index(key), p),
    {
        self.phases.set(key.index(), p);
    }
}

/// The cycle fraction of a phase accumulator, in `0 .. UNIT` steps.
pub open spec fn spec_frac(phase: u64) -> int {
    phase as int / 65536
}

/// The per-sample accumulator step for a pitch in millihertz at a sample
/// rate in hertz: the fraction `freq / sample_rate` of a whole cycle.
pub open spec fn spec_phase_inc(freq_mhz: u32, sr: u32) -> int {
    (PHASE_PERIOD as int) * freq_mhz / (1000 * (sr as int))
}

/// A phase accumulator advanced by one sample and wrapped into its cycle.
pub open spec fn spec_phase_step(phase: u64, freq_mhz: u32, sr: u32) -> int {
    (phase + spec_phase_inc(freq_mhz, sr)) % (PHASE_PERIOD as int)
}

/// The weighted sample one sounding key contributes through one voice: the
/// voice's sample scaled by the key's envelope amplitude.
pub open spec fn spec_voice_weight(amp: u32, o: Oscilator, frac: int) -> int {
    div_trunc(amp * spec_osc_tick(o, frac), UNIT as int)
}

/// What one voice contributes to a frame's amplitude sum for one key: the
/// envelope amplitude scaled by the voice gain.
pub open spec fn spec_voice_amp(amp: u32, o: Oscilator) -> int {
    amp * o.gain / (UNIT as int)
}

/// What one sounding key adds to a frame's weighted signal sum, over the
/// active voices.
pub open spec fn spec_note_weight(
    amp: u32,
    frac: int,
    o1: Oscilator,
    o2: Oscilator,
    o3: Oscilator,
) -> int {
    (if o1.active {
        spec_voice_weight(amp, o1, frac)
    } else {
        0
    }) + (if o2.active {
        spec_voice_weight(amp, o2, frac)
    } else {
        0
    }) + (if o3.active {
        spec_voice_weight(amp, o3, frac)
    } else {
        0
    })
}

/// What one sounding key adds to a frame's contributing-amplitude sum.
pub open spec fn spec_note_amps(amp: u32, o1: Oscilator, o2: Oscilator, o3: Oscilator) -> int {
    (if o1.active {
        spec_voice_amp(amp, o1)
    } else {
        0
    }) + (if o2.active {
        spec_voice_amp(amp, o2)
    } else {
        0
    }) + (if o3.active {
        spec_voice_amp(amp, o3)
    } else {
        0
    })
}

/// A frame's weighted signal sum over the first `n` key slots.  A slot at
/// zero amplitude contributes nothing and is skipped entirely.
pub open spec fn spec_mix_weight(
    keys: Seq<TrackElement>,
    phases: Seq<u64>,
    o1: Oscilator,
    o2: Oscilator,
    o3: Oscilator,
    n: int,
) -> int
    decreases n,
{
    if n <= 0 {
        0
    } else {
        spec_mix_weight(keys, phases, o1, o2, o3, n - 1) + (if keys[n - 1].amplitude != 0 {
            spec_note_weight(keys[n - 1].amplitude, spec_frac(phases[n - 1]), o1, o2, o3)
        } else {
            0
        })
    }
}

/// A frame's contributing-amplitude sum over the first `n` key slots.
pub open spec fn spec_mix_amps(
    keys: Seq<TrackElement>,
    o1: Oscilator,
    o2: Oscilator,
    o3: Oscilator,
    n: int,
) -> int
    decreases n,
{
    if n <= 0 {
        0
    } else {
        spec_mix_amps(keys, o1, o2, o3, n - 1) + (if keys[n - 1].amplitude != 0 {
            spec_note_amps(keys[n - 1].amplitude, o1, o2, o3)
        } else {
            0
        })
    }
}

/// All accumulators after one frame: a sounding key's phase advances by its
/// pitch step; a silent key's phase stays where it is.
pub open spec fn spec_frame_phases(keys: Seq<TrackElement>, phases: Seq<u64>, sr: u32) -> Seq<
    u64,
> {
    Seq::new(
        KEY_COUNT as nat,
        |i: int|
            if keys[i].amplitude != 0 {
                spec_phase_step(phases[i], spec_index_freq(i), sr) as u64
            } else {
                phases[i]
            },
    )
}

/// Frame normalization: where the contributing amplitudes sum above one
/// unit, the signal sum is scaled down by that sum so constructive voices
/// cannot clip; a quieter frame passes through unattenuated.
pub open spec fn spec_normalize(w: int, a: int) -> int {
    if a > UNIT {
        div_trunc(w * UNIT, a)
    } else {
        w
    }
}

/// The sample written into every channel of a frame: the normalized signal
/// sum scaled by the master gain.
pub open spec fn spec_frame_sample(w: int, a: int, mgain: u32) -> int {
    div_trunc(spec_normalize(w, a) * mgain, UNIT as int)
}

/// All twelve envelopes advanced by one sample.
pub open spec fn spec_ticked(keys: Seq<TrackElement>, adsr: ADSR) -> Seq<TrackElement> {
    Seq::new(KEY_COUNT as nat, |i: int| spec_env_tick(keys[i], adsr))
}

/// One voice's weighted contribution is bounded by its amplitude
/// contribution.
proof fn lemma_voice_weight_bounded(amp: u32, o: Oscilator, frac: int)
    requires
        amp <= UNIT,
        o.wf(),
        0 <= frac < 65536,
    ensures
        -spec_voice_amp(amp, o) <= spec_voice_weight(amp, o, frac) <= spec_voice_amp(amp, o),
        0 <= spec_voice_amp(amp, o) <= UNIT,
{
    crate::oscilator::lemma_osc_tick_bounds(o, frac);
    let t = spec_osc_tick(o, frac);
    let b = amp * (o.gain as int);
    assert(-b <= amp * t <= b && b <= 65536 * 65536) by (nonlinear_arith)
        requires
            -(o.gain as int) <= t <= o.gain as int && 0 <= amp <= 65536 && 0 <= o.gain <= 65536
                && b == amp * (o.gain as int),
    ;
    assert(-(b / 65536) <= div_trunc(amp * t, 65536) <= b / 65536 && 0 <= b / 65536 <= 65536)
        by (nonlinear_arith)
        requires
            -b <= amp * t <= b && 0 <= b <= 65536 * 65536,
    ;
}

/// One key's weighted contribution is bounded by its amplitude
/// contribution.
proof fn lemma_note_weight_bounded(amp: u32, frac: int, o1: Oscilator, o2: Oscilator, o3: Oscilator)
    requires
        amp <= UNIT,
        o1.wf(),
        o2.wf(),
        o3.wf(),
        0 <= frac < 65536,
    ensures
        -spec_note_amps(amp, o1, o2, o3) <= spec_note_weight(amp, frac, o1, o2, o3)
            <= spec_note_amps(amp, o1, o2, o3),
        0 <= spec_note_amps(amp, o1, o2, o3) <= 3 * UNIT,
{
    lemma_voice_weight_bounded(amp, o1, frac);
    lemma_voice_weight_bounded(amp, o2, frac);
    lemma_voice_weight_bounded(amp, o3, frac);
}

/// No frame's weighted signal sum exceeds its contributing-amplitude sum in
/// magnitude, and the amplitude sum of `n` slots is at most `3 * n` units.
pub proof fn lemma_mix_bounded(
    keys: Seq<TrackElement>,
    phases: Seq<u64>,
    o1: Oscilator,
    o2: Oscilator,
    o3: Oscilator,
    n: int,
)
    requires
        0 <= n <= KEY_COUNT,
        keys.len() == KEY_COUNT,
        phases.len() == KEY_COUNT,
        forall|i: int| 0 <= i < KEY_COUNT ==> env_wf(#[trigger] keys[i]),
        forall|i: int| 0 <= i < KEY_COUNT ==> #[trigger] phases[i] < PHASE_PERIOD,
        o1.wf(),
        o2.wf(),
        o3.wf(),
    ensures
        -spec_mix_amps(keys, o1, o2, o3, n) <= spec_mix_weight(keys, phases, o1, o2, o3, n)
            <= spec_mix_amps(keys, o1, o2, o3, n),
        0 <= spec_mix_amps(keys, o1, o2, o3, n) <= 3 * n * UNIT,
    decreases n,
{
    if n > 0 {
        lemma_mix_bounded(keys, phases, o1, o2, o3, n - 1);
        if keys[n - 1].amplitude != 0 {
            assert(phases[n - 1] < PHASE_PERIOD);
            assert(0 <= spec_frac(phases[n - 1]) < 65536) by (nonlinear_arith)
                requires
                    0 <= phases[n - 1] < 4294967296 && spec_frac(phases[n - 1]) == (phases[n
                        - 1] as int) / 65536,
            ;
            lemma_note_weight_bounded(
                keys[n - 1].amplitude,
                spec_frac(phases[n - 1]),
                o1,
                o2,
                o3,
            );
        }
    }
}

/// One voice's two contributions for one sounding key: the weighted sample
/// and the contributing amplitude.
fn voice_terms(o: &Oscilator, amp: u32, frac: u32) -> (r: (i64, u64))
    requires
        o.wf(),
        amp <= UNIT,
        frac < 65536,
    ensures
        r.0 as int == spec_voice_weight(amp, *o, frac as int),
        r.1 as int == spec_voice_amp(amp, *o),
        -(r.1 as int) <= r.0 as int <= r.1 as int,
        r.1 <= UNIT,
{
    let t = o.tick(frac);
    proof {
        assert(-4294967296 <= (amp as int) * (t as int) <= 4294967296) by (nonlinear_arith)
            requires
                -65536 <= t <= 65536 && 0 <= amp <= 65536,
        ;
        assert((amp as int) * (o.gain as int) <= 4294967296) by (nonlinear_arith)
            requires
                0 <= amp <= 65536 && 0 <= o.gain <= 65536,
        ;
        lemma_voice_weight_bounded(amp, *o, frac as int);
    }
    let w = div_trunc64((amp as i64) * t, 65536);
    let a = ((amp as u64) * (o.gain as u64)) / 65536;
    (w, a)
}

/// The per-sample accumulator step for a pitch at this sample rate.
fn phase_increment(freq_mhz: u32, sr: u32) -> (inc: u64)
    requires
        1000 <= sr <= 1000000,
        freq_mhz <= 500000,
    ensures
        inc as int == spec_phase_inc(freq_mhz, sr),
        inc < PHASE_PERIOD,
{
    let num: u64 = PHASE_PERIOD * (freq_mhz as u64);
    let den: u64 = 1000 * (sr as u64);
    let inc = num / den;
    proof {
        assert(num / den < 4294967296) by (nonlinear_arith)
            requires
                num == 4294967296 * (freq_mhz as int) && den == 1000 * (sr as int) && freq_mhz
                    <= 500000 && 1000 <= sr,
        ;
    }
    inc
}

/// The synthesis engine: all per-key state plus the per-buffer snapshots of
/// the oscillator voices, owned by the one audio thread.
pub struct Engine {
    pub sample_rate: u32,
    pub phases: PhaseStore,
    pub key_tracker: KeyAmplitudeTracker,
    pub osc1: Oscilator,
    pub osc2: Oscilator,
    pub osc3: Oscilator,
}

impl Engine {
    /// A legal engine: a negotiated audio rate and legal per-key state.
    /// The rate bounds are machine limits of the phase arithmetic, far wider
    /// than any real device configuration.
    pub open spec fn wf(self) -> bool {
        &&& 1000 <= self.sample_rate <= 1000000
        &&& self.phases.wf()
        &&& self.key_tracker.wf()
        &&& self.osc1.wf()
        &&& self.osc2.wf()
        &&& self.osc3.wf()
    }

    /// A fresh engine at the given sample rate: every key idle, every phase
    /// at the cycle start, every voice snapshot at its start value.
    pub fn new(sample_rate: u32) -> (e: Engine)
        requires
            1000 <= sample_rate <= 1000000,
        ensures
            e.wf(),
            e.sample_rate == sample_rate,
            forall|i: int|
                0 <= i < KEY_COUNT ==> e.key_tracker.keys[i] == TrackElement::spec_default(),
            forall|i: int| 0 <= i < KEY_COUNT ==> e.phases@[i] == 0,
            e.key_tracker.adsr == (ADSR { attack: 0, decay: 0, sustain: UNIT, release: 0 }),
            e.osc1 == (Oscilator { waveform: Waveform::Sin, active: false, gain: UNIT }),
            e.osc2 == (Oscilator { waveform: Waveform::Sin, active: false, gain: UNIT }),
            e.osc3 == (Oscilator { waveform: Waveform::Sin, active: false, gain: UNIT }),
    {
        Engine {
            sample_rate,
            phases: PhaseStore::new(),
            key_tracker: KeyAmplitudeTracker::new(),
            osc1: Oscilator::new(),
            osc2: Oscilator::new(),
            osc3: Oscilator::new(),
        }
    }

    /// Produce one frame's sample: advance every envelope by one sample, sum
    /// the active voices over the sounding keys (advancing their phases),
    /// normalize, and scale by the master gain.  The result's magnitude
    /// never exceeds the master gain.
    fn render_frame(&mut self, mgain: u32) -> (s: i64)
        requires
            old(self).wf(),
            mgain <= UNIT,
        ensures
            final (self).wf(),
            final (self).sample_rate == old(self).sample_rate,
            final (self).osc1 == old(self).osc1,
            final (self).osc2 == old(self).osc2,
            final (self).osc3 == old(self).osc3,
            final (self).key_tracker.adsr == old(self).key_tracker.adsr,
            final (self).key_tracker.keys@ == spec_ticked(
                old(self).key_tracker.keys@,
                old(self).key_tracker.adsr,
            ),
            final (self).phases@ == spec_frame_phases(
                final (self).key_tracker.keys@,
                old(self).phases@,
                old(self).sample_rate,
            ),
            s as int == spec_frame_sample(
                spec_mix_weight(
                    final (self).key_tracker.keys@,
                    old(self).phases@,
                    old(self).osc1,
                    old(self).osc2,
                    old(self).osc3,
                    KEY_COUNT as int,
                ),
                spec_mix_amps(
                    final (self).key_tracker.keys@,
                    old(self).osc1,
                    old(self).osc2,
                    old(self).osc3,
                    KEY_COUNT as int,
                ),
                mgain,
            ),
            -(mgain as i64) <= s <= mgain as i64,
    {
        self.key_tracker.tick();
        let ghost keys2 = self.key_tracker.keys@;
        let ghost phases0 = self.phases@;
        let mut sum_amps: u64 = 0;
        let mut sample_w: i64 = 0;
        let mut i: usize = 0;
        while i < KEY_COUNT
            invariant
                i <= KEY_COUNT,
                1000 <= self.sample_rate <= 1000000,
                self.sample_rate == old(self).sample_rate,
                self.osc1 == old(self).osc1,
                self.osc2 == old(self).osc2,
                self.osc3 == old(self).osc3,
                self.osc1.wf(),
                self.osc2.wf(),
                self.osc3.wf(),
                self.key_tracker.wf(),
                self.key_tracker.keys@ == keys2,
                self.key_tracker.adsr == old(self).key_tracker.adsr,
                keys2.len() == KEY_COUNT,
                phases0.len() == KEY_COUNT,
                forall|j: int| 0 <= j < KEY_COUNT ==> #[trigger] phases0[j] < PHASE_PERIOD,
                self.phases.wf(),
                forall|j: int|
                    0 <= j < i ==> self.phases@[j] == spec_frame_phases(
                        keys2,
                        phases0,
                        self.sample_rate,
                    )[j],
                forall|j: int| i <= j < KEY_COUNT ==> self.phases@[j] == phases0[j],
                sample_w as int == spec_mix_weight(
                    keys2,
                    phases0,
                    self.osc1,
                    self.osc2,
                    self.osc3,
                    i as int,
                ),
                sum_amps as int == spec_mix_amps(keys2, self.osc1, self.osc2, self.osc3, i as int),
                -(sum_amps as int) <= sample_w as int <= sum_amps as int,
                sum_amps <= 196608 * (i as u64),
            decreases KEY_COUNT - i,
        {
            let amp = self.key_tracker.keys[i].amplitude;
            if amp != 0 {
                let key = Key::from_zero_index(i);
                let freq = key.freq();
                let phase = self.phases.get_phase(key);
                let frac = (phase / 65536) as u32;
                proof {
                    assert(phase / 65536 < 65536) by (nonlinear_arith)
                        requires
                            phase < 4294967296,
                    ;
                }
                if self.osc1.active {
                    let (w, a) = voice_terms(&self.osc1, amp, frac);
                    sample_w = sample_w + w;
                    sum_amps = sum_amps + a;
                }
                if self.osc2.active {
                    let (w, a) = voice_terms(&self.osc2, amp, frac);
                    sample_w = sample_w + w;
                    sum_amps = sum_amps + a;
                }
                if self.osc3.active {
                    let (w, a) = voice_terms(&self.osc3, amp, frac);
                    sample_w = sample_w + w;
                    sum_amps = sum_amps + a;
                }
                let inc = phase_increment(freq, self.sample_rate);
                let np = (phase + inc) % PHASE_PERIOD;
                self.phases.set_phase(key, np);
            }
            i += 1;
        }
        proof {
            assert(self.phases@ =~= spec_frame_phases(keys2, phases0, self.sample_rate));
        }
        let normed: i64 = if sum_amps > 65536 {
            div_trunc64(sample_w * 65536, sum_amps)
        } else {
            sample_w
        };
        proof {
            let w = sample_w as int;
            let a = sum_amps as int;
            if a > 65536 {
                assert(-65536 <= div_trunc(w * 65536, a) <= 65536) by (nonlinear_arith)
                    requires
                        -a <= w <= a && 65536 < a,
                ;
            }
            assert(normed as int == spec_normalize(w, a));
            assert(-65536 <= normed as int <= 65536);
            assert(-4294967296 <= (normed as int) * (mgain as int) <= 4294967296)
                by (nonlinear_arith)
                requires
                    -65536 <= normed as int <= 65536 && 0 <= mgain <= 65536,
            ;
        }
        let s = div_trunc64(normed * (mgain as i64), 65536);
        proof {
            assert(-(mgain as int) <= div_trunc((normed as int) * (mgain as int), 65536) <= mgain
                as int) by (nonlinear_arith)
                requires
                    -65536 <= normed as int <= 65536 && 0 <= mgain <= 65536,
            ;
        }
        s
    }
}

/// The engine state and the sample stream after `n` frames from a given
/// state, under one fixed parameter snapshot: the tracked envelopes, the
/// phase accumulators, and every frame's output sample, frame by frame.
/// Given identical snapshots and starting state, a buffer's content is
/// fully determined by this function — the engine is deterministic.
pub open spec fn spec_run(
    keys: Seq<TrackElement>,
    phases: Seq<u64>,
    adsr: ADSR,
    o1: Oscilator,
    o2: Oscilator,
    o3: Oscilator,
    sr: u32,
    mgain: u32,
    n: nat,
) -> (Seq<TrackElement>, Seq<u64>, Seq<int>)
    decreases n,
{
    if n == 0 {
        (keys, phases, Seq::empty())
    } else {
        let prev = spec_run(keys, phases, adsr, o1, o2, o3, sr, mgain, (n - 1) as nat);
        let kt = spec_ticked(prev.0, adsr);
        let s = spec_frame_sample(
            spec_mix_weight(kt, prev.1, o1, o2, o3, KEY_COUNT as int),
            spec_mix_amps(kt, o1, o2, o3, KEY_COUNT as int),
            mgain,
        );
        (kt, spec_frame_phases(kt, prev.1, sr), prev.2.push(s))
    }
}

/// A run of `n` frames yields exactly `n` samples.
pub proof fn lemma_run_len(
    keys: Seq<TrackElement>,
    phases: Seq<u64>,
    adsr: ADSR,
    o1: Oscilator,
    o2: Oscilator,
    o3: Oscilator,
    sr: u32,
    mgain: u32,
    n: nat,
)
    ensures
        spec_run(keys, phases, adsr, o1, o2, o3, sr, mgain, n).2.len() == n,
    decreases n,
{
    if n > 0 {
        lemma_run_len(keys, phases, adsr, o1, o2, o3, sr, mgain, (n - 1) as nat);
    }
}

/// `spec_run` applied to an engine value's own state.
pub open spec fn spec_engine_run(e: Engine, mgain: u32, n: nat) -> (
    Seq<TrackElement>,
    Seq<u64>,
    Seq<int>,
) {
    spec_run(
        e.key_tracker.keys@,
        e.phases@,
        e.key_tracker.adsr,
        e.osc1,
        e.osc2,
        e.osc3,
        e.sample_rate,
        mgain,
        n,
    )
}

impl Engine {
    /// Fill a buffer of interleaved sample frames: every channel of frame
    /// `k` receives the `k`-th sample of the deterministic run from the
    /// current engine state, and no sample's magnitude exceeds the master
    /// gain.  A trailing partial frame is filled the same way.
    #[verifier::loop_isolation(false)]
    pub fn run_buffer(&mut self, mgain: u32, buffer: &mut Vec<i64>, channels: usize)
        requires
            old(self).wf(),
            mgain <= UNIT,
            1 <= channels,
            old(buffer).len() + channels <= usize::MAX,
        ensures
            final (self).wf(),
            final (self).sample_rate == old(self).sample_rate,
            final (self).osc1 == old(self).osc1,
            final (self).osc2 == old(self).osc2,
            final (self).osc3 == old(self).osc3,
            final (self).key_tracker.adsr == old(self).key_tracker.adsr,
            final (buffer).len() == old(buffer).len(),
            ({
                let frames = ((old(buffer).len() + channels - 1) as int / (channels as int)) as nat;
                let r = spec_engine_run(*old(self), mgain, frames);
                &&& final (self).key_tracker.keys@ == r.0
                &&& final (self).phases@ == r.1
                &&& forall|ix: int|
                    0 <= ix < old(buffer).len() ==> final (buffer)[ix] as int == r.2[ix / (
                    channels as int)]
            }),
            forall|ix: int|
                0 <= ix < old(buffer).len() ==> -(mgain as i64) <= #[trigger] final (buffer)[ix]
                    <= mgain as i64,
    {
        let len = buffer.len();
        let mut pos: usize = 0;
        let ghost mut f: int = 0;
        while pos < len
            invariant
                pos <= len,
                buffer.len() == len,
                0 <= f,
                f * (channels as int) < len + channels,
                pos as int == f * (channels as int) || (pos == len && f * (channels as int)
                    >= len),
                self.wf(),
                self.sample_rate == old(self).sample_rate,
                self.osc1 == old(self).osc1,
                self.osc2 == old(self).osc2,
                self.osc3 == old(self).osc3,
                self.key_tracker.adsr == old(self).key_tracker.adsr,
                self.key_tracker.keys@ == spec_engine_run(*old(self), mgain, f as nat).0,
                self.phases@ == spec_engine_run(*old(self), mgain, f as nat).1,
                forall|ix: int|
                    0 <= ix < pos ==> buffer[ix] as int == spec_engine_run(
                        *old(self),
                        mgain,
                        f as nat,
                    ).2[ix / (channels as int)],
                forall|ix: int|
                    0 <= ix < pos ==> 0 <= #[trigger] (ix / (channels as int)) < f,
                forall|ix: int|
                    0 <= ix < pos ==> -(mgain as i64) <= #[trigger] buffer[ix] <= mgain as i64,
            decreases len - pos,
        {
            let ghost f0 = f;
            let ghost pos0 = pos as int;
            let ghost c = channels as int;
            let s = self.render_frame(mgain);
            proof {
                f = f + 1;
                assert(spec_engine_run(*old(self), mgain, f as nat).0
                    == self.key_tracker.keys@);
                assert(spec_engine_run(*old(self), mgain, f as nat).1 == self.phases@);
                assert(spec_engine_run(*old(self), mgain, f as nat).2 == spec_engine_run(
                    *old(self),
                    mgain,
                    f0 as nat,
                ).2.push(s as int));
            }
            let mut j: usize = 0;
            while j < channels && pos < len
                invariant
                    j <= channels,
                    pos as int == pos0 + j,
                    pos <= len,
                    buffer.len() == len,
                    forall|ix: int|
                        0 <= ix < pos0 ==> buffer[ix] as int == spec_engine_run(
                            *old(self),
                            mgain,
                            f0 as nat,
                        ).2[ix / (channels as int)],
                    forall|ix: int|
                        0 <= ix < pos0 ==> 0 <= #[trigger] (ix / (channels as int)) < f0,
                    forall|ix: int| pos0 <= ix < pos ==> #[trigger] buffer[ix] == s,
                    forall|ix: int|
                        0 <= ix < pos ==> -(mgain as i64) <= #[trigger] buffer[ix] <= mgain
                            as i64,
                decreases len - pos,
            {
                buffer.set(pos, s);
                pos = pos + 1;
                j = j + 1;
            }
            proof {
                lemma_run_len(
                    old(self).key_tracker.keys@,
                    old(self).phases@,
                    old(self).key_tracker.adsr,
                    old(self).osc1,
                    old(self).osc2,
                    old(self).osc3,
                    old(self).sample_rate,
                    mgain,
                    f0 as nat,
                );
                assert((f0 + 1) * c == f0 * c + c) by (nonlinear_arith);
                assert forall|ix: int| pos0 <= ix < pos implies #[trigger] (ix / c) == f0 by {
                    vstd::arithmetic::div_mod::lemma_fundamental_div_mod_converse_div(
                        ix,
                        c,
                        f0,
                        ix - f0 * c,
                    );
                }
                assert(spec_engine_run(*old(self), mgain, f as nat).2.len() == f);
                assert forall|ix: int|
                    0 <= ix < pos implies buffer[ix] as int == spec_engine_run(
                        *old(self),
                        mgain,
                        f as nat,
                    ).2[ix / c] by {
                    if ix < pos0 {
                        assert(buffer[ix] as int == spec_engine_run(
                            *old(self),
                            mgain,
                            f0 as nat,
                        ).2[ix / c]);
                    } else {
                        assert(ix / c == f0);
                    }
                }
            }
        }
        proof {
            let c = channels as int;
            let frames = ((len + channels - 1) as int / c) as nat;
            if pos as int == f * c {
                vstd::arithmetic::div_mod::lemma_fundamental_div_mod_converse_div(
                    len + c - 1,
                    c,
                    f,
                    c - 1,
                );
            } else {
                vstd::arithmetic::div_mod::lemma_fundamental_div_mod_converse_div(
                    len + c - 1,
                    c,
                    f,
                    len + c - 1 - f * c,
                );
            }
            assert(frames == f);
        }
    }

    /// One audio callback's worth of work: snapshot the pressed-key bitmask
    /// and every parameter cell once, feed the key events to the envelope
    /// tracker, and fill the whole buffer from those snapshots.  Whatever
    /// interleaving of UI writes the loads observe, the buffer is the
    /// deterministic run of the engine under one legal snapshot, and no
    /// sample's magnitude exceeds one unit.  This entry point cannot fail.
    pub fn on_buffer(&mut self, params: &Params, buffer: &mut Vec<i64>, channels: usize)
        requires
            old(self).wf(),
            1 <= channels,
            old(buffer).len() + channels <= usize::MAX,
        ensures
            final (self).wf(),
            final (self).sample_rate == old(self).sample_rate,
            final (buffer).len() == old(buffer).len(),
            forall|ix: int|
                0 <= ix < old(buffer).len() ==> -(UNIT as i64) <= #[trigger] final (buffer)[ix]
                    <= UNIT as i64,
            exists|active: u32, mgain: u32|
                mgain <= UNIT && #[trigger] spec_on_buffer_post(
                    *old(self),
                    *final (self),
                    old(buffer)@,
                    final (buffer)@,
                    channels as int,
                    active,
                    mgain,
                ),
    {
        let active = params.active_keys.load();
        let mgain = params.gain.load();
        let mut adsr = self.key_tracker.adsr;
        adsr.update(&params.adsr);
        self.key_tracker.update(active, adsr);
        self.osc1.update(&params.osc1);
        self.osc2.update(&params.osc2);
        self.osc3.update(&params.osc3);
        let ghost mid = *self;
        proof {
            assert(mid.key_tracker.keys@ =~= Seq::new(
                KEY_COUNT as nat,
                |i: int|
                    spec_update_slot(old(self).key_tracker.keys@[i], spec_key_down(active, i)),
            ));
        }
        self.run_buffer(mgain, buffer, channels);
        proof {
            assert(spec_on_buffer_post(
                *old(self),
                *self,
                old(buffer)@,
                buffer@,
                channels as int,
                active,
                mgain,
            ));
        }
    }
}

/// A slot fully at rest: released and silent, with no release ramp left
/// that could raise it again.  Fresh slots are at rest, and so is every
/// slot whose release ramp has run out.
pub open spec fn spec_at_rest(e: TrackElement, rel: u32) -> bool {
    &&& e.state is Released
    &&& e.amplitude == 0
    &&& (e.t_amplitude == 0 || spec_bump(e.position) >= rel)
}

/// Rest is stable: a release event and a sample step both keep a resting
/// slot resting and silent.
pub proof fn lemma_rest_stable(e: TrackElement, adsr: ADSR)
    requires
        env_wf(e),
        adsr.wf(),
        spec_at_rest(e, adsr.release),
    ensures
        spec_at_rest(spec_release(e), adsr.release),
        spec_release(e) == e,
        spec_at_rest(spec_env_tick(e, adsr), adsr.release),
        spec_env_tick(e, adsr).amplitude == 0,
{
    let p = spec_bump(e.position);
    if p < adsr.release {
        assert(e.t_amplitude == 0);
        vstd::arithmetic::div_mod::lemma_div_of0(adsr.release as int);
        assert((p as int) * 0 == 0) by (nonlinear_arith);
        assert(spec_release_amp(0, p as int, adsr.release as int) == 0);
    }
}

/// A frame in which no key sounds mixes to exactly zero.
pub proof fn lemma_mix_silent(
    keys: Seq<TrackElement>,
    phases: Seq<u64>,
    o1: Oscilator,
    o2: Oscilator,
    o3: Oscilator,
    n: int,
)
    requires
        0 <= n <= KEY_COUNT,
        keys.len() == KEY_COUNT,
        forall|i: int| 0 <= i < KEY_COUNT ==> #[trigger] keys[i].amplitude == 0,
    ensures
        spec_mix_weight(keys, phases, o1, o2, o3, n) == 0,
        spec_mix_amps(keys, o1, o2, o3, n) == 0,
    decreases n,
{
    if n > 0 {
        lemma_mix_silent(keys, phases, o1, o2, o3, n - 1);
    }
}

/// Silence at rest: with every key released and its envelope at rest, every
/// sample of a run of any length is exactly zero, the phases never move,
/// and the keys stay at rest.
pub proof fn lemma_silence(
    keys: Seq<TrackElement>,
    phases: Seq<u64>,
    adsr: ADSR,
    o1: Oscilator,
    o2: Oscilator,
    o3: Oscilator,
    sr: u32,
    mgain: u32,
    n: nat,
)
    requires
        keys.len() == KEY_COUNT,
        phases.len() == KEY_COUNT,
        adsr.wf(),
        forall|i: int| 0 <= i < KEY_COUNT ==> env_wf(#[trigger] keys[i]),
        forall|i: int| 0 <= i < KEY_COUNT ==> spec_at_rest(#[trigger] keys[i], adsr.release),
    ensures
        ({
            let r = spec_run(keys, phases, adsr, o1, o2, o3, sr, mgain, n);
            &&& r.1 == phases
            &&& r.0.len() == KEY_COUNT
            &&& forall|i: int| 0 <= i < KEY_COUNT ==> env_wf(#[trigger] r.0[i])
            &&& forall|i: int| 0 <= i < KEY_COUNT ==> spec_at_rest(#[trigger] r.0[i], adsr.release)
            &&& forall|k: int| 0 <= k < r.2.len() ==> #[trigger] r.2[k] == 0
        }),
    decreases n,
{
    if n > 0 {
        lemma_silence(keys, phases, adsr, o1, o2, o3, sr, mgain, (n - 1) as nat);
        let prev = spec_run(keys, phases, adsr, o1, o2, o3, sr, mgain, (n - 1) as nat);
        let kt = spec_ticked(prev.0, adsr);
        assert forall|i: int| 0 <= i < KEY_COUNT implies env_wf(#[trigger] kt[i]) && spec_at_rest(
            kt[i],
            adsr.release,
        ) by {
            lemma_env_tick_wf(prev.0[i], adsr);
            lemma_rest_stable(prev.0[i], adsr);
        }
        lemma_mix_silent(kt, prev.1, o1, o2, o3, KEY_COUNT as int);
        vstd::arithmetic::div_mod::lemma_div_of0(65536);
        assert(spec_normalize(0, 0) == 0);
        assert(0 * (mgain as int) == 0) by (nonlinear_arith);
        assert(spec_frame_sample(0, 0, mgain) == 0);
        assert(spec_frame_phases(kt, prev.1, sr) =~= prev.1);
    }
}

/// Normalization prevents clipping: as long as the weighted signal sum is
/// bounded by the contributing-amplitude sum — which every frame's is —
/// the frame sample's magnitude never exceeds the master gain, however
/// many voices sum constructively.
pub proof fn lemma_no_clipping(w: int, a: int, mgain: u32)
    requires
        -a <= w <= a,
        mgain <= UNIT,
    ensures
        -(mgain as int) <= spec_frame_sample(w, a, mgain) <= mgain as int,
{
    let nw = spec_normalize(w, a);
    if a > 65536 {
        assert(-65536 <= div_trunc(w * 65536, a) <= 65536) by (nonlinear_arith)
            requires
                -a <= w <= a && 65536 < a,
        ;
    }
    assert(-(mgain as int) <= div_trunc(nw * mgain, 65536) <= mgain as int) by (nonlinear_arith)
        requires
            -65536 <= nw <= 65536 && 0 <= mgain <= 65536,
    ;
}

/// Hard output bound: every sample of every run stays within the master
/// gain, whatever keys sound, however long the run, and however the voices
/// are configured — and the per-key state stays legal throughout.
pub proof fn lemma_run_bounded(
    keys: Seq<TrackElement>,
    phases: Seq<u64>,
    adsr: ADSR,
    o1: Oscilator,
    o2: Oscilator,
    o3: Oscilator,
    sr: u32,
    mgain: u32,
    n: nat,
)
    requires
        keys.len() == KEY_COUNT,
        phases.len() == KEY_COUNT,
        adsr.wf(),
        o1.wf(),
        o2.wf(),
        o3.wf(),
        mgain <= UNIT,
        1 <= sr,
        forall|i: int| 0 <= i < KEY_COUNT ==> env_wf(#[trigger] keys[i]),
        forall|i: int| 0 <= i < KEY_COUNT ==> #[trigger] phases[i] < PHASE_PERIOD,
    ensures
        ({
            let r = spec_run(keys, phases, adsr, o1, o2, o3, sr, mgain, n);
            &&& r.0.len() == KEY_COUNT
            &&& r.1.len() == KEY_COUNT
            &&& forall|i: int| 0 <= i < KEY_COUNT ==> env_wf(#[trigger] r.0[i])
            &&& forall|i: int| 0 <= i < KEY_COUNT ==> #[trigger] r.1[i] < PHASE_PERIOD
            &&& forall|k: int|
                0 <= k < r.2.len() ==> -(mgain as int) <= #[trigger] r.2[k] <= mgain as int
        }),
    decreases n,
{
    if n > 0 {
        lemma_run_bounded(keys, phases, adsr, o1, o2, o3, sr, mgain, (n - 1) as nat);
        let prev = spec_run(keys, phases, adsr, o1, o2, o3, sr, mgain, (n - 1) as nat);
        let kt = spec_ticked(prev.0, adsr);
        assert forall|i: int| 0 <= i < KEY_COUNT implies env_wf(#[trigger] kt[i]) by {
            lemma_env_tick_wf(prev.0[i], adsr);
        }
        assert forall|i: int|
            0 <= i < KEY_COUNT implies #[trigger] spec_frame_phases(kt, prev.1, sr)[i]
            < PHASE_PERIOD by {
            if kt[i].amplitude != 0 {
                assert(0 <= spec_phase_inc(spec_index_freq(i), sr)) by (nonlinear_arith)
                    requires
                        1 <= sr,
                        spec_phase_inc(spec_index_freq(i), sr) == 4294967296
                            * (spec_index_freq(i) as int) / (1000 * (sr as int)),
                ;
                vstd::arithmetic::div_mod::lemma_mod_pos_bound(
                    prev.1[i] + spec_phase_inc(spec_index_freq(i), sr),
                    PHASE_PERIOD as int,
                );
            }
        }
        lemma_mix_bounded(kt, prev.1, o1, o2, o3, KEY_COUNT as int);
        lemma_no_clipping(
            spec_mix_weight(kt, prev.1, o1, o2, o3, KEY_COUNT as int),
            spec_mix_amps(kt, o1, o2, o3, KEY_COUNT as int),
            mgain,
        );
    }
}

/// Exact division facts for full-scale factors.
proof fn lemma_div_trunc_exact(x: int)
    ensures
        div_trunc(x * 65536, 65536) == x,
        div_trunc(65536 * x, 65536) == x,
    decreases 0int,
{
    vstd::arithmetic::mul::lemma_mul_is_commutative(x, 65536);
    if x >= 0 {
        vstd::arithmetic::div_mod::lemma_div_multiples_vanish(x, 65536);
    } else {
        vstd::arithmetic::div_mod::lemma_div_multiples_vanish(-x, 65536);
        assert(-(x * 65536) == (-x) * 65536) by (nonlinear_arith);
        assert(-(x * 65536) == 65536 * (-x)) by (nonlinear_arith);
    }
}

/// The mix of a frame in which exactly one key sounds reduces to that
/// key's own contribution.
proof fn lemma_mix_single(
    keys: Seq<TrackElement>,
    phases: Seq<u64>,
    o1: Oscilator,
    o2: Oscilator,
    o3: Oscilator,
    t: int,
    n: int,
)
    requires
        0 <= t < KEY_COUNT,
        0 <= n <= KEY_COUNT,
        keys.len() == KEY_COUNT,
        phases.len() == KEY_COUNT,
        keys[t].amplitude != 0,
        forall|i: int| 0 <= i < KEY_COUNT && i != t ==> #[trigger] keys[i].amplitude == 0,
    ensures
        spec_mix_weight(keys, phases, o1, o2, o3, n) == if t < n {
            spec_note_weight(keys[t].amplitude, spec_frac(phases[t]), o1, o2, o3)
        } else {
            0
        },
        spec_mix_amps(keys, o1, o2, o3, n) == if t < n {
            spec_note_amps(keys[t].amplitude, o1, o2, o3)
        } else {
            0
        },
    decreases n,
{
    if n > 0 {
        lemma_mix_single(keys, phases, o1, o2, o3, t, n - 1);
    }
}

/// Unity passthrough: with a single key sounding at full amplitude and one
/// active unity-gain voice, a frame's sample is that voice's raw waveform
/// value scaled only by the master gain — normalization does not touch it.
pub proof fn lemma_single_voice_identity(
    keys: Seq<TrackElement>,
    phases: Seq<u64>,
    o1: Oscilator,
    o2: Oscilator,
    o3: Oscilator,
    t: int,
    mgain: u32,
)
    requires
        0 <= t < KEY_COUNT,
        keys.len() == KEY_COUNT,
        phases.len() == KEY_COUNT,
        phases[t] < PHASE_PERIOD,
        keys[t].amplitude == UNIT,
        forall|i: int| 0 <= i < KEY_COUNT && i != t ==> #[trigger] keys[i].amplitude == 0,
        o1.active,
        o1.gain == UNIT,
        !o2.active,
        !o3.active,
        mgain <= UNIT,
    ensures
        spec_frame_sample(
            spec_mix_weight(keys, phases, o1, o2, o3, KEY_COUNT as int),
            spec_mix_amps(keys, o1, o2, o3, KEY_COUNT as int),
            mgain,
        ) == div_trunc(spec_wave_value(o1.waveform, spec_frac(phases[t])) * mgain, UNIT as int),
{
    lemma_mix_single(keys, phases, o1, o2, o3, t, KEY_COUNT as int);
    let frac = spec_frac(phases[t]);
    assert(0 <= frac < 65536) by (nonlinear_arith)
        requires
            0 <= phases[t] < 4294967296 && frac == (phases[t] as int) / 65536,
    ;
    let wv = spec_wave_value(o1.waveform, frac);
    lemma_div_trunc_exact(wv);
    assert(spec_osc_tick(o1, frac) == wv);
    lemma_div_trunc_exact(spec_osc_tick(o1, frac));
    assert(spec_voice_weight(UNIT, o1, frac) == wv);
    assert(spec_voice_amp(UNIT, o1) == 65536 * 65536 / 65536);
    vstd::arithmetic::div_mod::lemma_div_multiples_vanish(65536, 65536);
    assert(spec_mix_amps(keys, o1, o2, o3, KEY_COUNT as int) == UNIT);
    assert(spec_normalize(wv, UNIT as int) == wv);
}

/// What one `on_buffer` call with an observed bitmask `active` and master
/// gain `mgain` does: the bitmask's events hit every slot, and the buffer
/// and final state are the deterministic run of the resulting state under
/// the snapshots the call read.
pub open spec fn spec_on_buffer_post(
    pre: Engine,
    post: Engine,
    buf_pre: Seq<i64>,
    buf_post: Seq<i64>,
    channels: int,
    active: u32,
    mgain: u32,
) -> bool {
    let keys1 = Seq::new(
        KEY_COUNT as nat,
        |i: int| spec_update_slot(pre.key_tracker.keys@[i], spec_key_down(active, i)),
    );
    let frames = ((buf_pre.len() + channels - 1) / channels) as nat;
    let r = spec_run(
        keys1,
        pre.phases@,
        post.key_tracker.adsr,
        post.osc1,
        post.osc2,
        post.osc3,
        pre.sample_rate,
        mgain,
        frames,
    );
    &&& post.key_tracker.adsr.wf()
    &&& post.key_tracker.keys@ == r.0
    &&& post.phases@ == r.1
    &&& buf_post.len() == buf_pre.len()
    &&& forall|ix: int| 0 <= ix < buf_pre.len() ==> buf_post[ix] as int == r.2[ix / channels]
}

} // verus!

