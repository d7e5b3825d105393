//! An attack-decay-sustain-release envelope: a finite stream of gains.
use vstd::prelude::*;
use crate::error::ConfigError;
use crate::fixed::{ONE, lemma_div_below, lemma_div_at_least, lemma_div_step};

verus! {

/// The phases of an envelope, in the order they are passed through.
#[derive(Clone, Copy, PartialEq, Eq, Structural, Debug)]
pub enum EnvelopeState {
    Attack,
    Decay,
    Sustain,
    Release,
    Done,
}

/// Gain at sample `e` of an attack of `a` samples: `e / a`, rounded down.
pub open spec fn attack_value(e: nat, a: nat) -> int {
    (e * (ONE as int)) / (a as int)
}

/// Gain at sample `e` of a decay of `d` samples towards sustain level `s`:
/// `1 - (e / d) * (1 - s)`, rounded down.
pub open spec fn decay_value(e: nat, d: nat, s: int) -> int {
    (d * (ONE as int) - e * (ONE as int - s)) / (d as int)
}

/// Gain at sample `e` of a release of `r` samples from sustain level `s`:
/// `s * (1 - e / r)`, rounded down.
pub open spec fn release_value(e: nat, r: nat, s: int) -> int {
    (s * (r - e)) / (r as int)
}

/// An ADSR envelope. Lengths are in samples, the sustain level is a sample
/// value in [0, ONE].
#[derive(Clone, Copy, PartialEq, Eq, Structural, Debug)]
pub struct Envelope {
    pub state: EnvelopeState,
    pub attack_duration: u32,
    pub decay_duration: u32,
    pub sustain_level: i64,
    pub release_duration: u32,
    pub sample_rate: u32,
    /// Samples emitted so far within the current phase.
    pub current_sample: u32,
}

impl Envelope {
    /// Length of the current phase; zero for the phases without one.
    pub open spec fn phase_len(&self) -> nat {
        match self.state {
            EnvelopeState::Attack => self.attack_duration as nat,
            EnvelopeState::Decay => self.decay_duration as nat,
            EnvelopeState::Release => self.release_duration as nat,
            _ => 0,
        }
    }

    pub open spec fn is_ramp(&self) -> bool {
        self.state == EnvelopeState::Attack || self.state == EnvelopeState::Decay || self.state
            == EnvelopeState::Release
    }

    pub open spec fn wf(&self) -> bool {
        &&& self.attack_duration > 0
        &&& self.decay_duration > 0
        &&& self.release_duration > 0
        &&& 0 <= self.sustain_level <= ONE
        &&& self.is_ramp() ==> self.current_sample < self.phase_len()
        &&& !self.is_ramp() ==> self.current_sample == 0
    }

    /// The same envelope in phase `state`, `e` samples into it.
    pub open spec fn at(&self, state: EnvelopeState, e: nat) -> Envelope {
        Envelope { state, current_sample: e as u32, ..*self }
    }

    /// The value the next call emits; `None` once the envelope is done.
    pub open spec fn output(&self) -> Option<int> {
        let e = self.current_sample as nat;
        match self.state {
            EnvelopeState::Attack => Some(attack_value(e, self.attack_duration as nat)),
            EnvelopeState::Decay => Some(
                decay_value(e, self.decay_duration as nat, self.sustain_level as int),
            ),
            EnvelopeState::Sustain => Some(self.sustain_level as int),
            EnvelopeState::Release => Some(
                release_value(e, self.release_duration as nat, self.sustain_level as int),
            ),
            EnvelopeState::Done => None,
        }
    }

    /// The phase that follows the current one.
    pub open spec fn following(&self) -> EnvelopeState {
        match self.state {
            EnvelopeState::Attack => EnvelopeState::Decay,
            EnvelopeState::Decay => EnvelopeState::Sustain,
            EnvelopeState::Release => EnvelopeState::Done,
            s => s,
        }
    }

    /// The envelope after one sample: a ramp moves on by one sample and, at
    /// its end, hands over to the next phase; Sustain and Done stay put.
    pub open spec fn stepped(&self) -> Envelope {
        if self.is_ramp() {
            if self.current_sample + 1 >= self.phase_len() {
                self.at(self.following(), 0)
            } else {
                self.at(self.state, (self.current_sample + 1) as nat)
            }
        } else {
            *self
        }
    }

    /// The envelope after a note-off: every phase before Release moves to
    /// its start.
    pub open spec fn released(&self) -> Envelope {
        match self.state {
            EnvelopeState::Release | EnvelopeState::Done => *self,
            _ => self.at(EnvelopeState::Release, 0),
        }
    }

    /// A new envelope at the start of its attack. Every phase must last at
    /// least one sample and the sustain level must lie in [0, ONE].
    pub fn new(
        attack_duration: u32,
        decay_duration: u32,
        sustain_level: i64,
        release_duration: u32,
        sample_rate: u32,
    ) -> (r: Result<Envelope, ConfigError>)
        ensures
            (attack_duration == 0 || decay_duration == 0 || release_duration == 0) <==> r
                == Err::<Envelope, ConfigError>(ConfigError::ZeroLengthPhase),
            (attack_duration > 0 && decay_duration > 0 && release_duration > 0 && !(0
                <= sustain_level <= ONE)) <==> r == Err::<Envelope, ConfigError>(
                ConfigError::SustainOutOfRange,
            ),
            r is Ok <==> (attack_duration > 0 && decay_duration > 0 && release_duration > 0 && 0
                <= sustain_level <= ONE),
            r matches Ok(env) ==> env.wf() && env == (Envelope {
                state: EnvelopeState::Attack,
                attack_duration,
                decay_duration,
                sustain_level,
                release_duration,
                sample_rate,
                current_sample: 0,
            }),
    {
        if attack_duration == 0 || decay_duration == 0 || release_duration == 0 {
            return Err(ConfigError::ZeroLengthPhase);
        }
        if sustain_level < 0 || sustain_level > ONE {
            return Err(ConfigError::SustainOutOfRange);
        }
        Ok(Envelope {
            state: EnvelopeState::Attack,
            attack_duration,
            decay_duration,
            sustain_level,
            release_duration,
            sample_rate,
            current_sample: 0,
        })
    }

    /// Emits the gain for the current sample and moves on by one sample;
    /// `None` once the release has finished.
    pub fn next(&mut self) -> (r: Option<i64>)
        requires
            old(self).wf(),
        ensures
            final(self).wf(),
            *final(self) == old(self).stepped(),
            r is Some <==> old(self).output() is Some,
            r matches Some(v) ==> v as int == old(self).output().unwrap(),
    {
        proof {
            lemma_output_in_range(*self);
        }
        let one: u128 = ONE as u128;
        let e: u128 = self.current_sample as u128;
        let s: u128 = self.sustain_level as u128;
        let value: i64 = match self.state {
            EnvelopeState::Attack => {
                let a: u128 = self.attack_duration as u128;
                proof {
                    assert(e * one < 0x1_0000_0000_0000_0000_0000) by (nonlinear_arith)
                        requires e < 0x1_0000_0000, one == 0x100_0000_0000;
                }
                ((e * one) / a) as i64
            },
            EnvelopeState::Decay => {
                let d: u128 = self.decay_duration as u128;
                proof {
                    assert(e * (one - s) <= d * one) by (nonlinear_arith)
                        requires e < d, s <= one;
                    assert(d * one < 0x1_0000_0000_0000_0000_0000) by (nonlinear_arith)
                        requires d < 0x1_0000_0000, one == 0x100_0000_0000;
                }
                ((d * one - e * (one - s)) / d) as i64
            },
            EnvelopeState::Sustain => self.sustain_level,
            EnvelopeState::Release => {
                let rl: u128 = self.release_duration as u128;
                proof {
                    assert(s * (rl - e) < 0x1_0000_0000_0000_0000_0000) by (nonlinear_arith)
                        requires rl < 0x1_0000_0000, s <= 0x100_0000_0000, e < rl;
                }
                ((s * (rl - e)) / rl) as i64
            },
            EnvelopeState::Done => {
                return None;
            },
        };
        match self.state {
            EnvelopeState::Attack => {
                if self.current_sample + 1 >= self.attack_duration {
                    self.state = EnvelopeState::Decay;
                    self.current_sample = 0;
                } else {
                    self.current_sample = self.current_sample + 1;
                }
            },
            EnvelopeState::Decay => {
                if self.current_sample + 1 >= self.decay_duration {
                    self.state = EnvelopeState::Sustain;
                    self.current_sample = 0;
                } else {
                    self.current_sample = self.current_sample + 1;
                }
            },
            EnvelopeState::Release => {
                if self.current_sample + 1 >= self.release_duration {
                    self.state = EnvelopeState::Done;
                    self.current_sample = 0;
                } else {
                    self.current_sample = self.current_sample + 1;
                }
            },
            _ => {},
        }
        Some(value)
    }

    /// Note-off: moves an envelope that has not reached Release to the start
    /// of its release.
    pub fn release(&mut self)
        requires
            old(self).wf(),
        ensures
            final(self).wf(),
            *final(self) == old(self).released(),
    {
        match self.state {
            EnvelopeState::Release | EnvelopeState::Done => {},
            _ => {
                self.state = EnvelopeState::Release;
                self.current_sample = 0;
            },
        }
    }
}

/// Every value an envelope emits is a gain in [0, 1].
pub proof fn lemma_output_in_range(env: Envelope)
    requires
        env.wf(),
    ensures
        env.output() matches Some(v) ==> 0 <= v <= ONE,
{
    let one = ONE as int;
    let e = env.current_sample as int;
    let s = env.sustain_level as int;
    match env.state {
        EnvelopeState::Attack => {
            let a = env.attack_duration as int;
            assert(e * one < one * a) by (nonlinear_arith)
                requires 0 <= e < a, one > 0;
            lemma_div_below(e * one, a, one);
        },
        EnvelopeState::Decay => {
            let d = env.decay_duration as int;
            assert(0 <= d * one - e * (one - s) <= (one + 1) * d - 1) by (nonlinear_arith)
                requires 0 <= e < d, 0 <= s <= one;
            lemma_div_below(d * one - e * (one - s), d, one + 1);
        },
        EnvelopeState::Release => {
            let r = env.release_duration as int;
            assert(0 <= s * (r - e) < (one + 1) * r) by (nonlinear_arith)
                requires 0 <= e < r, 0 <= s <= one;
            lemma_div_below(s * (r - e), r, one + 1);
        },
        _ => {},
    }
}

/// The envelope after `n` samples.
pub open spec fn advance(env: Envelope, n: nat) -> Envelope
    decreases n,
{
    if n == 0 {
        env
    } else {
        advance(env, (n - 1) as nat).stepped()
    }
}

proof fn lemma_advance_wf(env: Envelope, n: nat)
    requires
        env.wf(),
    ensures
        advance(env, n).wf(),
    decreases n,
{
    if n > 0 {
        lemma_advance_wf(env, (n - 1) as nat);
    }
}

proof fn lemma_advance_split(env: Envelope, m: nat, n: nat)
    ensures
        advance(env, m + n) == advance(advance(env, m), n),
    decreases n,
{
    if n > 0 {
        lemma_advance_split(env, m, (n - 1) as nat);
        assert((m + n - 1) as nat == m + (n - 1) as nat);
    }
}

/// Within a ramp, each sample moves one step further into the same phase.
proof fn lemma_within_phase(env: Envelope, n: nat)
    requires
        env.wf(),
        env.is_ramp(),
        env.current_sample + n < env.phase_len(),
    ensures
        advance(env, n) == env.at(env.state, (env.current_sample + n) as nat),
    decreases n,
{
    if n > 0 {
        lemma_within_phase(env, (n - 1) as nat);
    } else {
        assert(env.at(env.state, env.current_sample as nat) == env);
    }
}

/// A ramp that is `e` samples in ends after `len - e` more samples, at the start
/// of the next phase.
proof fn lemma_phase_end(env: Envelope)
    requires
        env.wf(),
        env.is_ramp(),
    ensures
        advance(env, (env.phase_len() - env.current_sample) as nat) == env.at(env.following(), 0),
{
    let k = (env.phase_len() - env.current_sample - 1) as nat;
    lemma_within_phase(env, k);
}

/// Done is absorbing: from there on nothing is produced.
proof fn lemma_done_stays(env: Envelope, n: nat)
    requires
        env.state == EnvelopeState::Done,
    ensures
        advance(env, n) == env,
    decreases n,
{
    if n > 0 {
        lemma_done_stays(env, (n - 1) as nat);
    }
}

/// A fresh envelope produces a value on each of its first
/// `attack_duration + decay_duration` samples, spending them in Attack and
/// Decay, and then holds in Sustain.
pub proof fn lemma_attack_decay_length(env: Envelope)
    requires
        env.wf(),
        env.state == EnvelopeState::Attack,
        env.current_sample == 0,
    ensures
        forall|n: nat|
            n < env.attack_duration + env.decay_duration ==> {
                let cur = #[trigger] advance(env, n);
                &&& cur.state == EnvelopeState::Attack || cur.state == EnvelopeState::Decay
                &&& cur.output() is Some
            },
        advance(env, (env.attack_duration + env.decay_duration) as nat).state
            == EnvelopeState::Sustain,
        advance(env, (env.attack_duration + env.decay_duration) as nat).output() is Some,
{
    let a = env.attack_duration as nat;
    let d = env.decay_duration as nat;
    lemma_phase_end(env);
    let dec = env.at(EnvelopeState::Decay, 0);
    assert(advance(env, a) == dec);
    lemma_phase_end(dec);
    lemma_advance_split(env, a, d);
    assert forall|n: nat| n < a + d implies {
        let cur = #[trigger] advance(env, n);
        &&& cur.state == EnvelopeState::Attack || cur.state == EnvelopeState::Decay
        &&& cur.output() is Some
    } by {
        if n < a {
            lemma_within_phase(env, n);
        } else {
            let k = (n - a) as nat;
            lemma_advance_split(env, a, k);
            assert(a + k == n);
            lemma_within_phase(dec, k);
        }
    }
}

/// A released envelope produces exactly `release_duration` values and then
/// ends: from there on no value is produced.
pub proof fn lemma_release_length(env: Envelope)
    requires
        env.wf(),
        env.state == EnvelopeState::Release,
        env.current_sample == 0,
    ensures
        forall|n: nat|
            n < env.release_duration ==> (#[trigger] advance(env, n)).output() is Some,
        forall|n: nat|
            n >= env.release_duration ==> (#[trigger] advance(env, n)).output() is None,
{
    let r = env.release_duration as nat;
    lemma_phase_end(env);
    let done = env.at(EnvelopeState::Done, 0);
    assert forall|n: nat| n < r implies (#[trigger] advance(env, n)).output() is Some by {
        lemma_within_phase(env, n);
    }
    assert forall|n: nat| n >= r implies (#[trigger] advance(env, n)).output() is None by {
        let k = (n - r) as nat;
        lemma_advance_split(env, r, k);
        assert(r + k == n);
        lemma_done_stays(done, k);
    }
}

/// The attack ramp starts at zero, rises with every sample, stays below
/// one, and its last sample is within `ONE / attack_duration + 1` of one.
pub proof fn lemma_attack_ramp(a: nat, e1: nat, e2: nat)
    requires
        0 < a <= u32::MAX,
        e1 < e2 < a,
    ensures
        attack_value(0, a) == 0,
        attack_value(e1, a) < attack_value(e2, a) < ONE,
        ONE - attack_value((a - 1) as nat, a) <= (ONE as int) / (a as int) + 1,
{
    let one = ONE as int;
    let ai = a as int;
    assert(e1 * one + ai <= e2 * one) by (nonlinear_arith)
        requires e1 < e2, ai <= 0xffff_ffff, one == 0x100_0000_0000;
    lemma_div_step(e1 * one, e2 * one, ai);
    assert(e2 * one < one * ai) by (nonlinear_arith)
        requires e2 < ai, one > 0;
    lemma_div_below(e2 * one, ai, one);
    vstd::arithmetic::div_mod::lemma_fundamental_div_mod(one, ai);
    let q = one / ai;
    let k = one - q - 1;
    assert(k * ai <= (ai - 1) * one) by (nonlinear_arith)
        requires one == ai * q + one % ai, 0 <= one % ai < ai, k == one - q - 1;
    assert(((a - 1) as nat) * one == (ai - 1) * one);
    lemma_div_at_least((ai - 1) * one, ai, k);
}

} // verus!
