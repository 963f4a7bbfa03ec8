//! One oscillator voice: a configurable waveform generator.
//!
//! A voice is evaluated at a phase position given as a fraction of one cycle
//! in `0 .. UNIT` steps and yields a sample in `-UNIT ..= UNIT` fixed-point
//! units, already scaled by the voice's own gain.  The sine shape uses a
//! rational approximation whose error stays below two thousandths of full
//! scale and whose peaks hit `UNIT` exactly; the other shapes are exact.

use vstd::prelude::*;

use crate::keyboard::Osc;
use crate::waveform::Waveform;
use crate::UNIT;

verus! {

/// Division truncating toward zero, as the hardware divides signed words.
pub open spec fn div_trunc(a: int, b: int) -> int
    recommends
        b > 0,
{
    if a >= 0 {
        a / b
    } else {
        -((-a) / b)
    }
}

/// Truncating division of a signed value by a positive divisor.
pub fn div_trunc64(a: i64, d: u64) -> (q: i64)
    requires
        1 <= d,
        i64::MIN < a,
    ensures
        q == div_trunc(a as int, d as int),
{
    if a >= 0 {
        let q = (a as u64) / d;
        proof {
            assert((a as u64) / d <= (a as u64)) by (nonlinear_arith)
                requires
                    1 <= d,
            ;
        }
        q as i64
    } else {
        let n = (-a) as u64;
        proof {
            assert(n / d <= n) by (nonlinear_arith)
                requires
                    1 <= d,
            ;
        }
        -((n / d) as i64)
    }
}

/// The rising half of the sine cycle: for a position `n` in `0 ..= 32768`
/// half-cycle steps, the approximate value of `UNIT * sin(pi * n / 32768)`.
/// The formula is the classic rational approximation of the half sine,
/// scaled to these fixed-point units; it is exact at both ends and at the
/// peak.
pub open spec fn spec_sine_half(n: int) -> int
    recommends
        0 <= n <= 32768,
{
    let m = n * (32768 - n);
    4194304 * m / (21474836480 - 16 * m)
}

/// The full sine cycle at a phase fraction in `0 .. UNIT` cycle steps: the
/// rising half followed by its mirror image.
pub open spec fn spec_sine(frac: int) -> int
    recommends
        0 <= frac < 65536,
{
    if frac < 32768 {
        spec_sine_half(frac)
    } else {
        -spec_sine_half(frac - 32768)
    }
}

/// The half-sine value stays within `0 ..= UNIT`.
pub proof fn lemma_sine_half_bounds(n: int)
    requires
        0 <= n <= 32768,
    ensures
        0 <= spec_sine_half(n) <= UNIT,
{
    assert(0 <= n * (32768 - n) <= 268435456) by (nonlinear_arith)
        requires
            0 <= n <= 32768,
    ;
    let m = n * (32768 - n);
    let num = 4194304 * m;
    let den = 21474836480 - 16 * m;
    assert(num <= 65536 * den);
    assert(num / den <= 65536) by (nonlinear_arith)
        requires
            num <= 65536 * den && den >= 1 && num >= 0,
    ;
    assert(num / den >= 0) by (nonlinear_arith)
        requires
            num >= 0 && den >= 1,
    ;
}

fn sine_half(n: u32) -> (s: i64)
    requires
        n <= 32768,
    ensures
        s == spec_sine_half(n as int),
        0 <= s <= UNIT,
{
    proof {
        lemma_sine_half_bounds(n as int);
        assert((n as int) * (32768 - n as int) <= 268435456) by (nonlinear_arith)
            requires
                0 <= n <= 32768,
        ;
    }
    let m: u64 = (n as u64) * ((32768 - n) as u64);
    let num: u64 = 4194304 * m;
    let den: u64 = 21474836480 - 16 * m;
    (num / den) as i64
}

/// Evaluate the sine shape at a phase fraction of the cycle.
pub fn sine_wave(frac: u32) -> (s: i64)
    requires
        frac < 65536,
    ensures
        s == spec_sine(frac as int),
        -(UNIT as i64) <= s <= UNIT as i64,
{
    if frac < 32768 {
        sine_half(frac)
    } else {
        -sine_half(frac - 32768)
    }
}

/// The raw value of a waveform shape at a phase fraction of the cycle, in
/// `-UNIT ..= UNIT` units:
/// - sine: the rational half-sine approximation and its mirror;
/// - square: `UNIT` on the first half cycle, `-UNIT` on the second;
/// - saw: rising linearly from `-UNIT` through the whole cycle;
/// - triangle: falling from `UNIT` to `-UNIT` and rising back.
pub open spec fn spec_wave_value(w: Waveform, frac: int) -> int
    recommends
        0 <= frac < 65536,
{
    match w {
        Waveform::Sin => spec_sine(frac),
        Waveform::Square => if frac < 32768 {
            65536int
        } else {
            -65536
        },
        Waveform::Saw => 2 * frac - 65536,
        Waveform::Triangle => {
            let d = if 2 * frac >= 65536 {
                2 * frac - 65536
            } else {
                65536 - 2 * frac
            };
            2 * d - 65536
        },
    }
}

/// Every waveform shape stays within one unit of full scale.
pub proof fn lemma_wave_value_bounds(w: Waveform, frac: int)
    requires
        0 <= frac < 65536,
    ensures
        -(UNIT as int) <= spec_wave_value(w, frac) <= UNIT as int,
{
    match w {
        Waveform::Sin => {
            if frac < 32768 {
                lemma_sine_half_bounds(frac);
            } else {
                lemma_sine_half_bounds(frac - 32768);
            }
        },
        _ => {},
    }
}

/// Evaluate a waveform shape at a phase fraction of the cycle.
pub fn wave_value(w: Waveform, frac: u32) -> (s: i64)
    requires
        frac < 65536,
    ensures
        s == spec_wave_value(w, frac as int),
        -(UNIT as i64) <= s <= UNIT as i64,
{
    match w {
        Waveform::Sin => sine_wave(frac),
        Waveform::Square => if frac < 32768 {
            65536
        } else {
            -65536
        },
        Waveform::Saw => 2 * (frac as i64) - 65536,
        Waveform::Triangle => {
            let two = 2 * frac;
            let d: u32 = if two >= 65536 {
                two - 65536
            } else {
                65536 - two
            };
            2 * (d as i64) - 65536
        },
    }
}

/// One voice's per-buffer snapshot: the waveform kind, whether the voice is
/// mixed in, and the voice's own gain in `0 ..= UNIT` units.
#[derive(Clone, Copy, PartialEq, Eq, Structural, Debug)]
pub struct Oscilator {
    pub waveform: Waveform,
    pub active: bool,
    pub gain: u32,
}

/// The sample a voice contributes at a phase fraction: its waveform value
/// scaled by its own gain.
pub open spec fn spec_osc_tick(o: Oscilator, frac: int) -> int
    recommends
        0 <= frac < 65536,
        o.wf(),
{
    div_trunc(spec_wave_value(o.waveform, frac) * o.gain, UNIT as int)
}

/// A voice's sample magnitude never exceeds the voice's own gain.
pub proof fn lemma_osc_tick_bounds(o: Oscilator, frac: int)
    requires
        o.wf(),
        0 <= frac < 65536,
    ensures
        -(o.gain as int) <= spec_osc_tick(o, frac) <= o.gain as int,
{
    lemma_wave_value_bounds(o.waveform, frac);
    let wv = spec_wave_value(o.waveform, frac);
    assert(-(o.gain as int) <= div_trunc(wv * (o.gain as int), 65536) <= o.gain as int)
        by (nonlinear_arith)
        requires
            -65536 <= wv <= 65536 && 0 <= o.gain <= 65536,
    ;
}

impl Oscilator {
    /// A legal snapshot keeps the voice gain inside the level range.
    pub open spec fn wf(self) -> bool {
        self.gain <= UNIT
    }

    /// The snapshot the engine starts from before it has read any cell: a
    /// silent sine voice at unity gain.
    pub fn new() -> (o: Oscilator)
        ensures
            o == (Oscilator { waveform: Waveform::Sin, active: false, gain: UNIT }),
            o.wf(),
    {
        Oscilator { waveform: Waveform::Sin, active: false, gain: UNIT }
    }

    /// Re-read this voice's parameter cells.  Whatever interleaving of UI
    /// writes the loads observe, the resulting snapshot is legal.
    pub fn update(&mut self, cells: &Osc)
        ensures
            final (self).wf(),
    {
        self.waveform = cells.waveform.load();
        self.active = cells.active.load();
        self.gain = cells.gain.load();
    }

    /// This voice's sample at a phase fraction of the cycle.  The magnitude
    /// never exceeds the voice's own gain.
    pub fn tick(&self, frac: u32) -> (s: i64)
        requires
            frac < 65536,
            self.wf(),
        ensures
            s == spec_osc_tick(*self, frac as int),
            -(self.gain as i64) <= s <= self.gain as i64,
    {
        let w = wave_value(self.waveform, frac);
        proof {
            assert(-4294967296 <= (w as int) * (self.gain as int) <= 4294967296)
                by (nonlinear_arith)
                requires
                    -65536 <= w <= 65536 && 0 <= self.gain <= 65536,
            ;
        }
        let s = div_trunc64(w * (self.gain as i64), UNIT as u64);
        proof {
            lemma_osc_tick_bounds(*self, frac as int);
        }
        s
    }
}

} // verus!
