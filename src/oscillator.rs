//! Square, saw and triangle oscillators driven by an exact phase accumulator.
//!
//! A frequency is given in hundredths of a hertz; a negative one runs the
//! wave backwards and a zero one holds it still. The phase is the numerator of
//! a fraction of one period whose denominator is `phase_rate * FREQ_SCALE`, so
//! advancing by `freq / phase_rate` of a period is one integer addition and
//! never drifts.
use vstd::prelude::*;
use crate::fixed::{ONE, lemma_div_below, lemma_div_at_least, lemma_div_step};

verus! {

/// Frequencies are counted in hundredths of a hertz.
pub const FREQ_SCALE: u64 = 100;

/// The rate that phase advance is computed against by default.
pub const DEFAULT_PHASE_RATE: u32 = 44100;

/// The sample rate that oscillators declare to a sink by default.
pub const DEFAULT_OUTPUT_RATE: u32 = 48000;

/// The waveforms computed here.
#[derive(Clone, Copy, PartialEq, Eq, Structural, Debug)]
pub enum OscKind {
    Square,
    Saw,
    Triangle,
}

/// Square wave at phase `p` of `period`: +1 in the first half, -1 in the second.
pub open spec fn square_value(p: nat, period: nat) -> int {
    if 2 * p < period {
        ONE as int
    } else {
        -(ONE as int)
    }
}

/// Saw wave at phase `p` of `period`: `phase * 2 - 1`, rounded down.
pub open spec fn saw_value(p: nat, period: nat) -> int {
    (2 * p * (ONE as int)) / (period as int) - ONE as int
}

/// Triangle wave at phase `p` of `period`: `phase * 4 - 1` in the first half,
/// `3 - phase * 4` in the second, with `phase * 4` rounded down.
pub open spec fn triangle_value(p: nat, period: nat) -> int {
    if 2 * p < period {
        (4 * p * (ONE as int)) / (period as int) - ONE as int
    } else {
        3 * (ONE as int) - (4 * p * (ONE as int)) / (period as int)
    }
}

pub open spec fn wave_value(kind: OscKind, p: nat, period: nat) -> int {
    match kind {
        OscKind::Square => square_value(p, period),
        OscKind::Saw => saw_value(p, period),
        OscKind::Triangle => triangle_value(p, period),
    }
}

/// Phase advanced by `freq`, wrapped back into one period.
pub open spec fn advance_phase(phase: nat, freq: int, period: nat) -> nat {
    ((phase + freq) % (period as int)) as nat
}

/// A periodic waveform generator with a fixed frequency.
pub struct Oscillator {
    pub kind: OscKind,
    /// Frequency in hundredths of a hertz.
    pub freq: i32,
    /// Position within the period, as a numerator over `period()`.
    pub phase: u64,
    /// The rate that phase advance is computed against.
    pub phase_rate: u32,
    /// The sample rate declared to a consumer.
    pub output_rate: u32,
}

impl Oscillator {
    /// Denominator of the phase: one full period.
    pub open spec fn period(&self) -> nat {
        self.phase_rate as nat * FREQ_SCALE as nat
    }

    pub open spec fn wf(&self) -> bool {
        self.phase_rate > 0 && self.phase < self.period()
    }

    /// Sample value at the current phase.
    pub open spec fn value(&self) -> int {
        wave_value(self.kind, self.phase as nat, self.period())
    }

    /// A new oscillator at phase zero, advancing against `phase_rate` and
    /// declaring `output_rate`.
    pub fn with_rates(kind: OscKind, freq: i32, phase_rate: u32, output_rate: u32) -> (r: Oscillator)
        requires
            phase_rate > 0,
        ensures
            r.wf(),
            r.kind == kind,
            r.freq == freq,
            r.phase == 0,
            r.phase_rate == phase_rate,
            r.output_rate == output_rate,
    {
        Oscillator { kind, freq, phase: 0, phase_rate, output_rate }
    }

    /// A new oscillator at phase zero with the default rates.
    pub fn new(kind: OscKind, freq: i32) -> (r: Oscillator)
        ensures
            r.wf(),
            r.kind == kind,
            r.freq == freq,
            r.phase == 0,
            r.phase_rate == DEFAULT_PHASE_RATE,
            r.output_rate == DEFAULT_OUTPUT_RATE,
    {
        Self::with_rates(kind, freq, DEFAULT_PHASE_RATE, DEFAULT_OUTPUT_RATE)
    }

    /// `freq` reduced into one period: the step forward that matches it.
    fn step_in_period(freq: i32, period: u64) -> (r: u64)
        requires
            0 < period <= 429_496_729_500,
        ensures
            r == (freq as int) % (period as int),
    {
        if freq >= 0 {
            (freq as u64) % period
        } else {
            let back: u64 = ((-(freq as i64)) as u64) % period;
            let ghost n = -(freq as int);
            let ghost k = n / (period as int);
            proof {
                vstd::arithmetic::div_mod::lemma_fundamental_div_mod(n, period as int);
                assert(back as int == n % (period as int));
            }
            if back == 0 {
                proof {
                    let pi = period as int;
                    assert(freq as int == (-k) * pi + 0) by (nonlinear_arith)
                        requires n == pi * k + n % pi, n % pi == 0, freq as int == -n;
                    vstd::arithmetic::div_mod::lemma_fundamental_div_mod_converse(
                        freq as int,
                        period as int,
                        -k,
                        0,
                    );
                }
                0
            } else {
                proof {
                    let pi = period as int;
                    let b = back as int;
                    assert(freq as int == (-k - 1) * pi + (pi - b)) by (nonlinear_arith)
                        requires n == pi * k + b, freq as int == -n;
                    vstd::arithmetic::div_mod::lemma_fundamental_div_mod_converse(
                        freq as int,
                        period as int,
                        -k - 1,
                        period - back,
                    );
                }
                period - back
            }
        }
    }

    /// Channel count of the stream: always mono.
    pub fn channels(&self) -> (r: u16)
        ensures
            r == 1,
    {
        1
    }

    /// The sample rate declared to a consumer.
    pub fn sample_rate(&self) -> (r: u32)
        ensures
            r == self.output_rate,
    {
        self.output_rate
    }

    /// Advances the phase by one sample and returns the waveform there. The
    /// stream never ends.
    pub fn next(&mut self) -> (r: Option<i64>)
        requires
            old(self).wf(),
        ensures
            final(self).wf(),
            final(self).kind == old(self).kind,
            final(self).freq == old(self).freq,
            final(self).phase_rate == old(self).phase_rate,
            final(self).output_rate == old(self).output_rate,
            final(self).phase == advance_phase(old(self).phase as nat, old(self).freq as int, old(self).period()),
            r == Some(final(self).value() as i64),
            -(ONE as int) <= final(self).value() <= ONE as int,
    {
        let period: u64 = self.phase_rate as u64 * FREQ_SCALE;
        let step: u64 = Self::step_in_period(self.freq, period);
        proof {
            vstd::arithmetic::div_mod::lemma_add_mod_noop_right(
                self.phase as int,
                self.freq as int,
                period as int,
            );
        }
        self.phase = (self.phase + step) % period;
        let p = self.phase;
        proof {
            lemma_wave_in_range(self.kind, p as nat, period as nat);
        }
        let one: u128 = ONE as u128;
        let pw: u128 = p as u128;
        let pd: u128 = period as u128;
        let v: i64 = match self.kind {
            OscKind::Square => {
                if 2 * p < period {
                    ONE
                } else {
                    -ONE
                }
            },
            OscKind::Saw => {
                proof {
                    assert(2 * pw * one < 0x1_0000_0000_0000_0000_0000) by (nonlinear_arith)
                        requires pw < pd, pd <= 429_496_729_500, one == 0x100_0000_0000;
                }
                ((2 * pw * one) / pd) as i64 - ONE
            },
            OscKind::Triangle => {
                proof {
                    assert(4 * pw * one < 0x10_0000_0000_0000_0000_0000) by (nonlinear_arith)
                        requires pw < pd, pd <= 429_496_729_500, one == 0x100_0000_0000;
                }
                let q: i64 = ((4 * pw * one) / pd) as i64;
                if 2 * p < period {
                    q - ONE
                } else {
                    3 * ONE - q
                }
            },
        };
        Some(v)
    }
}

/// A Square wave oscillator at the default rates.
pub struct SquareWave {
    pub osc: Oscillator,
}

impl SquareWave {
    pub open spec fn wf(&self) -> bool {
        self.osc.wf() && self.osc.kind == OscKind::Square
    }

    /// A new square wave at `freq` hundredths of a hertz, at phase zero.
    pub fn new(freq: i32) -> (r: SquareWave)
        ensures
            r.wf(),
            r.osc.freq == freq,
            r.osc.phase == 0,
            r.osc.phase_rate == DEFAULT_PHASE_RATE,
            r.osc.output_rate == DEFAULT_OUTPUT_RATE,
    {
        SquareWave { osc: Oscillator::new(OscKind::Square, freq) }
    }

    /// Advances by one sample and returns the wave there.
    pub fn next(&mut self) -> (r: Option<i64>)
        requires
            old(self).wf(),
        ensures
            final(self).wf(),
            final(self).osc.freq == old(self).osc.freq,
            final(self).osc.phase_rate == old(self).osc.phase_rate,
            final(self).osc.output_rate == old(self).osc.output_rate,
            final(self).osc.phase == advance_phase(
                old(self).osc.phase as nat,
                old(self).osc.freq as int,
                old(self).osc.period(),
            ),
            r == Some(square_value(final(self).osc.phase as nat, final(self).osc.period()) as i64),
            r matches Some(v) ==> -ONE <= v <= ONE,
    {
        self.osc.next()
    }
}

/// A Saw wave oscillator at the default rates.
pub struct SawWave {
    pub osc: Oscillator,
}

impl SawWave {
    pub open spec fn wf(&self) -> bool {
        self.osc.wf() && self.osc.kind == OscKind::Saw
    }

    /// A new saw wave at `freq` hundredths of a hertz, at phase zero.
    pub fn new(freq: i32) -> (r: SawWave)
        ensures
            r.wf(),
            r.osc.freq == freq,
            r.osc.phase == 0,
            r.osc.phase_rate == DEFAULT_PHASE_RATE,
            r.osc.output_rate == DEFAULT_OUTPUT_RATE,
    {
        SawWave { osc: Oscillator::new(OscKind::Saw, freq) }
    }

    /// Advances by one sample and returns the wave there.
    pub fn next(&mut self) -> (r: Option<i64>)
        requires
            old(self).wf(),
        ensures
            final(self).wf(),
            final(self).osc.freq == old(self).osc.freq,
            final(self).osc.phase_rate == old(self).osc.phase_rate,
            final(self).osc.output_rate == old(self).osc.output_rate,
            final(self).osc.phase == advance_phase(
                old(self).osc.phase as nat,
                old(self).osc.freq as int,
                old(self).osc.period(),
            ),
            r == Some(saw_value(final(self).osc.phase as nat, final(self).osc.period()) as i64),
            r matches Some(v) ==> -ONE <= v <= ONE,
    {
        self.osc.next()
    }
}

/// A Triangle wave oscillator at the default rates.
pub struct TriangleWave {
    pub osc: Oscillator,
}

impl TriangleWave {
    pub open spec fn wf(&self) -> bool {
        self.osc.wf() && self.osc.kind == OscKind::Triangle
    }

    /// A new triangle wave at `freq` hundredths of a hertz, at phase zero.
    pub fn new(freq: i32) -> (r: TriangleWave)
        ensures
            r.wf(),
            r.osc.freq == freq,
            r.osc.phase == 0,
            r.osc.phase_rate == DEFAULT_PHASE_RATE,
            r.osc.output_rate == DEFAULT_OUTPUT_RATE,
    {
        TriangleWave { osc: Oscillator::new(OscKind::Triangle, freq) }
    }

    /// Advances by one sample and returns the wave there.
    pub fn next(&mut self) -> (r: Option<i64>)
        requires
            old(self).wf(),
        ensures
            final(self).wf(),
            final(self).osc.freq == old(self).osc.freq,
            final(self).osc.phase_rate == old(self).osc.phase_rate,
            final(self).osc.output_rate == old(self).osc.output_rate,
            final(self).osc.phase == advance_phase(
                old(self).osc.phase as nat,
                old(self).osc.freq as int,
                old(self).osc.period(),
            ),
            r == Some(triangle_value(final(self).osc.phase as nat, final(self).osc.period()) as i64),
            r matches Some(v) ==> -ONE <= v <= ONE,
    {
        self.osc.next()
    }
}

/// Every waveform stays within [-1, 1] at every phase of a period.
pub proof fn lemma_wave_in_range(kind: OscKind, p: nat, period: nat)
    requires
        p < period,
    ensures
        -(ONE as int) <= wave_value(kind, p, period) <= ONE as int,
{
    let one = ONE as int;
    let d = period as int;
    match kind {
        OscKind::Square => {},
        OscKind::Saw => {
            assert(2 * p * one < (2 * one) * d) by (nonlinear_arith)
                requires p < d, one > 0;
            lemma_div_below(2 * p * one, d, 2 * one);
        },
        OscKind::Triangle => {
            if 2 * p < period {
                assert(4 * p * one < (2 * one) * d) by (nonlinear_arith)
                    requires 2 * p < d, one > 0;
                lemma_div_below(4 * p * one, d, 2 * one);
            } else {
                assert(4 * p * one < (4 * one) * d) by (nonlinear_arith)
                    requires p < d, one > 0;
                lemma_div_below(4 * p * one, d, 4 * one);
                assert((2 * one) * d <= 4 * p * one) by (nonlinear_arith)
                    requires 2 * p >= d, one > 0;
                lemma_div_at_least(4 * p * one, d, 2 * one);
            }
        },
    }
}

/// One step of a saw oscillator whose frequency lies strictly between zero
/// and one period per sample: without a wrap the new sample is above the
/// previous one; at the wrap it is below it.
pub proof fn lemma_saw_step(osc: Oscillator)
    requires
        osc.wf(),
        0 < osc.freq,
        osc.freq < osc.period(),
    ensures
        ({
            let p = osc.phase as nat;
            let period = osc.period();
            let q = advance_phase(p, osc.freq as int, period);
            &&& p + osc.freq < period ==> saw_value(p, period) < saw_value(q, period)
            &&& p + osc.freq >= period ==> saw_value(q, period) < saw_value(p, period)
        }),
{
    let p = osc.phase as nat;
    let f = osc.freq as int;
    let period = osc.period();
    let q = advance_phase(p, f, period);
    let one = ONE as int;
    let d = period as int;
    assert(d < one) by (nonlinear_arith)
        requires d == (osc.phase_rate as int) * 100, osc.phase_rate < 0x1_0000_0000, one == 0x100_0000_0000;
    if p + f < period {
        vstd::arithmetic::div_mod::lemma_small_mod((p + f) as nat, period);
        assert(q == p + f);
        assert(2 * q * one == 2 * p * one + 2 * f * one) by (nonlinear_arith)
            requires q == p + f;
        assert(f * one >= one) by (nonlinear_arith)
            requires f >= 1, one > 0;
        lemma_div_step(2 * p * one, 2 * q * one, d);
    } else {
        vstd::arithmetic::div_mod::lemma_mod_sub_multiples_vanish((p + f) as int, d);
        vstd::arithmetic::div_mod::lemma_small_mod((p + f - period) as nat, period);
        assert(q == p + f - period);
        assert(2 * p * one == 2 * q * one + 2 * (d - f) * one) by (nonlinear_arith)
            requires q == p + f - d;
        assert((d - f) * one >= one) by (nonlinear_arith)
            requires d - f >= 1, one > 0;
        lemma_div_step(2 * q * one, 2 * p * one, d);
    }
}

} // verus!
