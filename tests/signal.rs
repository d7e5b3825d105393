use wavebender::delay::SabinReverb;
use wavebender::envelope::{Envelope, EnvelopeState};
use wavebender::error::ConfigError;
use wavebender::fixed::ONE;
use wavebender::oscillator::{
    OscKind, Oscillator, SawWave, SquareWave, TriangleWave, DEFAULT_OUTPUT_RATE, DEFAULT_PHASE_RATE,
};
use wavebender::voice::{
    effect_of, shape, Keyboard, Note, NoteWave, ReverbPreset, SourcePlan, Voice, AMPLIFY,
};

fn to_f64(v: i64) -> f64 {
    v as f64 / ONE as f64
}

fn take(osc: &mut Oscillator, n: usize) -> Vec<i64> {
    let mut out = Vec::new();
    for _ in 0..n {
        out.push(osc.next().unwrap());
    }
    out
}

#[test]
fn oscillators_stay_in_unit_range() {
    for kind in [OscKind::Square, OscKind::Saw, OscKind::Triangle] {
        for freq in [1i32, 26163, 44000, 52325, 1_000_000, 4_409_999, 9_000_000, 0, -1, -44000, -9_000_000] {
            let mut osc = Oscillator::new(kind, freq);
            for v in take(&mut osc, 5000) {
                assert!(-ONE <= v && v <= ONE, "{:?} at {} gave {}", kind, freq, v);
            }
        }
    }
}

#[test]
fn square_one_period_duty_cycle() {
    let mut osc = Oscillator::new(OscKind::Square, 44000);
    let n = (44100 + 440 - 1) / 440;
    assert_eq!(n, 101);
    let samples = take(&mut osc, n);
    let high = samples.iter().filter(|&&v| v == ONE).count();
    let low = samples.iter().filter(|&&v| v == -ONE).count();
    assert_eq!(high + low, n);
    assert_eq!(high, 51);
    assert_eq!(low, 50);
    assert!(samples[..50].iter().all(|&v| v == ONE));
    assert!(samples[50..100].iter().all(|&v| v == -ONE));
}

#[test]
fn square_duty_cycle_is_half_over_many_periods() {
    let mut osc = Oscillator::new(OscKind::Square, 26163);
    let samples = take(&mut osc, 441_000);
    let high = samples.iter().filter(|&&v| v == ONE).count() as f64;
    let frac = high / samples.len() as f64;
    assert!((frac - 0.5).abs() < 0.001, "fraction {}", frac);
}

#[test]
fn saw_rises_between_wraps() {
    let mut osc = Oscillator::new(OscKind::Saw, 44000);
    let samples = take(&mut osc, 1000);
    let mut wraps = 0;
    for w in samples.windows(2) {
        if w[1] < w[0] {
            wraps += 1;
            assert!(to_f64(w[0]) > 0.9 && to_f64(w[1]) < -0.9);
        }
    }
    assert_eq!(wraps, 9);
    assert_eq!(osc.phase, (1000u64 * 44000) % 4_410_000);
}

#[test]
fn saw_and_triangle_exact_values() {
    // A quarter period per sample.
    let mut saw = Oscillator::with_rates(OscKind::Saw, 25, 1, 48000);
    assert_eq!(take(&mut saw, 4), vec![-ONE / 2, 0, ONE / 2, -ONE]);
    let mut tri = Oscillator::with_rates(OscKind::Triangle, 25, 1, 48000);
    assert_eq!(take(&mut tri, 4), vec![0, ONE, 0, -ONE]);
    let mut sq = Oscillator::with_rates(OscKind::Square, 25, 1, 48000);
    assert_eq!(take(&mut sq, 4), vec![ONE, -ONE, -ONE, ONE]);
}

#[test]
fn oscillator_rates_are_configurable() {
    let osc = Oscillator::new(OscKind::Square, 44000);
    assert_eq!(osc.phase_rate, DEFAULT_PHASE_RATE);
    assert_eq!(osc.sample_rate(), DEFAULT_OUTPUT_RATE);
    assert_eq!(osc.channels(), 1);
    let osc = Oscillator::with_rates(OscKind::Saw, 44000, 48000, 48000);
    assert_eq!(osc.sample_rate(), 48000);
    assert_eq!(osc.phase_rate, 48000);
}

fn sustain_06() -> i64 {
    (0.6 * ONE as f64).round() as i64
}

#[test]
fn envelope_scenario() {
    let mut env = Envelope::new(100, 50, sustain_06(), 200, 44100).unwrap();
    let mut vals = Vec::new();
    for _ in 0..150 {
        vals.push(to_f64(env.next().unwrap()));
    }
    assert_eq!(vals[0], 0.0);
    assert!((vals[99] - 0.99).abs() < 1e-3);
    assert!((vals[100] - 1.0).abs() < 1e-3);
    assert!((vals[149] - 0.6).abs() < 0.01);
    assert_eq!(env.state, EnvelopeState::Sustain);
    for _ in 0..1000 {
        assert!((to_f64(env.next().unwrap()) - 0.6).abs() < 1e-4);
    }
    env.release();
    assert_eq!(env.state, EnvelopeState::Release);
    let mut rel = Vec::new();
    while let Some(v) = env.next() {
        rel.push(to_f64(v));
    }
    assert_eq!(rel.len(), 200);
    assert!((rel[0] - 0.6).abs() < 1e-4);
    assert!(rel[199].abs() < 0.01);
    assert_eq!(env.next(), None);
    assert_eq!(env.state, EnvelopeState::Done);
}

#[test]
fn envelope_phase_counts() {
    let mut env = Envelope::new(7, 3, ONE / 2, 5, 44100).unwrap();
    let mut in_ramp = 0;
    while env.state == EnvelopeState::Attack || env.state == EnvelopeState::Decay {
        assert!(env.next().is_some());
        in_ramp += 1;
    }
    assert_eq!(in_ramp, 10);
    assert_eq!(env.state, EnvelopeState::Sustain);
    env.release();
    let mut released = 0;
    while env.next().is_some() {
        released += 1;
    }
    assert_eq!(released, 5);
    assert_eq!(env.next(), None);
}

#[test]
fn envelope_attack_ramp_ends() {
    let mut env = Envelope::new(4, 2, 0, 2, 44100).unwrap();
    let vals: Vec<i64> = (0..4).map(|_| env.next().unwrap()).collect();
    assert_eq!(vals, vec![0, ONE / 4, ONE / 2, 3 * ONE / 4]);
    // Decay to a sustain of zero, then hold there.
    assert_eq!(env.next(), Some(ONE));
    assert_eq!(env.next(), Some(ONE / 2));
    assert_eq!(env.next(), Some(0));
}

#[test]
fn envelope_release_during_attack() {
    let mut env = Envelope::new(10, 10, ONE / 2, 4, 44100).unwrap();
    env.next();
    env.release();
    let vals: Vec<i64> = std::iter::from_fn(|| env.next()).collect();
    assert_eq!(vals, vec![ONE / 2, 3 * ONE / 8, ONE / 4, ONE / 8]);
}

#[test]
fn envelope_rejects_bad_configuration() {
    assert_eq!(Envelope::new(0, 1, 0, 1, 44100), Err(ConfigError::ZeroLengthPhase));
    assert_eq!(Envelope::new(1, 0, 0, 1, 44100), Err(ConfigError::ZeroLengthPhase));
    assert_eq!(Envelope::new(1, 1, 0, 0, 44100), Err(ConfigError::ZeroLengthPhase));
    assert_eq!(Envelope::new(1, 1, ONE + 1, 1, 44100), Err(ConfigError::SustainOutOfRange));
    assert_eq!(Envelope::new(1, 1, -1, 1, 44100), Err(ConfigError::SustainOutOfRange));
    assert!(Envelope::new(1, 1, ONE, 1, 44100).is_ok());
}

#[test]
fn delay_ring_buffer_timing() {
    let mut rv = SabinReverb::new(4, 500).unwrap();
    // The impulse comes back whole after one delay length; what was fed back
    // at half gain comes back one delay length later.
    let input = vec![ONE, 0, 0, 0, 0, 0, 0, 0, 0, 0, 0, 0];
    let out = rv.run(&input);
    assert_eq!(out, vec![ONE, 0, 0, 0, ONE, 0, 0, 0, ONE / 2, 0, 0, 0]);
}

#[test]
fn delay_zero_feedback_passes_first_samples() {
    let mut rv = SabinReverb::new(3, 0).unwrap();
    let input = vec![5, 6, 7, 8, 9, 10];
    let out = rv.run(&input);
    assert_eq!(out[..3], input[..3]);
    assert_eq!(out, vec![5, 6, 7, 13, 15, 17]);
}

#[test]
fn delay_ends_with_upstream() {
    let mut rv = SabinReverb::new(100, 700).unwrap();
    let input: Vec<i64> = (0..37).map(|i| i * 1000).collect();
    assert_eq!(rv.run(&input).len(), 37);
    let idx = rv.index;
    assert_eq!(rv.next(None), None);
    assert_eq!(rv.index, idx);
    assert_eq!(rv.next(Some(1)), Some(1));
}

#[test]
fn delay_saturates() {
    let mut rv = SabinReverb::new(1, 1000).unwrap();
    assert_eq!(rv.process(i64::MAX), i64::MAX);
    assert_eq!(rv.process(i64::MAX), i64::MAX);
    assert_eq!(rv.buffer[0], i64::MAX);
}

#[test]
fn delay_rejects_zero_length() {
    assert!(matches!(SabinReverb::new(0, 500), Err(ConfigError::ZeroDelay)));
}

#[test]
fn note_plans_follow_settings() {
    let mut note = Note::new(44000);
    assert_eq!(
        note.gen_source(),
        SourcePlan { wave: NoteWave::Sine, freq: 44000, gain: AMPLIFY, reverb: None }
    );
    note.set_reverb(true);
    assert_eq!(
        note.gen_source().reverb,
        Some(ReverbPreset { delay: 100, feedback: 500 })
    );
    note.set_wave(NoteWave::Square);
    assert_eq!(
        note.gen_source().reverb,
        Some(ReverbPreset { delay: 250, feedback: 700 })
    );
    note.set_wave(NoteWave::Triangle);
    assert_eq!(
        note.gen_source().reverb,
        Some(ReverbPreset { delay: 100, feedback: 500 })
    );
}

#[test]
fn keyboard_settings_apply_to_every_key() {
    let mut kb = Keyboard::new(&vec![26163, 27718, 29366]);
    kb.set_wave(NoteWave::Saw);
    kb.set_reverb(true);
    for k in 0..3 {
        let plan = kb.gen_source(k);
        assert_eq!(plan.wave, NoteWave::Saw);
        assert_eq!(plan.reverb, Some(ReverbPreset { delay: 100, feedback: 500 }));
    }
    assert_eq!(kb.gen_source(1).freq, 27718);
}

#[test]
fn voice_chains_oscillator_gain_and_delay() {
    let plan = SourcePlan {
        wave: NoteWave::Square,
        freq: 25,
        gain: AMPLIFY,
        reverb: Some(ReverbPreset { delay: 2, feedback: 500 }),
    };
    let mut v = Voice::from_plan(&plan, 1, 48000).unwrap().unwrap();
    assert_eq!(v.sample_rate(), 48000);
    let out: Vec<i64> = (0..4).map(|_| v.next().unwrap()).collect();
    let h = ONE / 2;
    assert_eq!(out, vec![h, -h, -h + h, h - h]);
    let sine = SourcePlan { wave: NoteWave::Sine, freq: 44000, gain: AMPLIFY, reverb: None };
    assert!(Voice::start(&sine).unwrap().is_none());
    let dry = SourcePlan { wave: NoteWave::Triangle, freq: 25, gain: AMPLIFY, reverb: None };
    let mut v = Voice::from_plan(&dry, 1, 48000).unwrap().unwrap();
    let out: Vec<i64> = (0..4).map(|_| v.next().unwrap()).collect();
    assert_eq!(out, vec![0, ONE / 2, 0, -ONE / 2]);
}

#[test]
fn wave_types_follow_their_oscillator() {
    let mut sq = SquareWave::new(44000);
    let mut saw = SawWave::new(44000);
    let mut tri = TriangleWave::new(44000);
    let mut o_sq = Oscillator::new(OscKind::Square, 44000);
    let mut o_saw = Oscillator::new(OscKind::Saw, 44000);
    let mut o_tri = Oscillator::new(OscKind::Triangle, 44000);
    for _ in 0..500 {
        assert_eq!(sq.next(), o_sq.next());
        assert_eq!(saw.next(), o_saw.next());
        assert_eq!(tri.next(), o_tri.next());
    }
    // First saw sample: phase 44000 / 4410000, so 2 * phase - 1 rounded down.
    let mut saw = SawWave::new(44000);
    assert_eq!(saw.next(), Some(2 * 44000 * ONE / 4_410_000 - ONE));
    assert_eq!(saw.osc.sample_rate(), 48000);
}

#[test]
fn slow_saw_rises_at_every_sample() {
    let mut saw = SawWave::new(1);
    let mut prev = -ONE;
    for _ in 0..1000 {
        let v = saw.next().unwrap();
        assert!(v > prev);
        prev = v;
    }
}

#[test]
fn fast_saw_drops_at_the_wrap() {
    let mut saw = SawWave::new(4_409_999);
    let first = saw.next().unwrap();
    let second = saw.next().unwrap();
    assert!(second < first);
    assert!(to_f64(first) > 0.99);
}

#[test]
fn long_attack_rises_at_every_sample() {
    let mut env = Envelope::new(100_000, 1, ONE / 2, 1, 44100).unwrap();
    let mut prev = env.next().unwrap();
    assert_eq!(prev, 0);
    for _ in 1..1000 {
        let v = env.next().unwrap();
        assert!(v > prev);
        prev = v;
    }
}

#[test]
fn plans_with_empty_delay_are_refused() {
    let plan = SourcePlan {
        wave: NoteWave::Saw,
        freq: 44000,
        gain: AMPLIFY,
        reverb: Some(ReverbPreset { delay: 0, feedback: 500 }),
    };
    assert!(matches!(Voice::start(&plan), Err(ConfigError::ZeroDelay)));
    assert!(matches!(effect_of(&plan), Err(ConfigError::ZeroDelay)));
    let ok = SourcePlan { reverb: Some(ReverbPreset { delay: 3, feedback: 500 }), ..plan };
    let v = Voice::start(&ok).unwrap().unwrap();
    assert_eq!(v.channels(), 1);
    assert_eq!(v.sample_rate(), DEFAULT_OUTPUT_RATE);
    assert_eq!(v.osc.kind, OscKind::Saw);
    assert_eq!(v.osc.freq, 44000);
    assert_eq!(v.reverb.as_ref().unwrap().delay, 3);
}

#[test]
fn shape_scales_then_delays() {
    let plan = SourcePlan {
        wave: NoteWave::Sine,
        freq: 44000,
        gain: AMPLIFY,
        reverb: Some(ReverbPreset { delay: 2, feedback: 500 }),
    };
    let mut rv = effect_of(&plan).unwrap();
    let out: Vec<i64> = [ONE, 0, 0, 0, 0].iter().map(|&s| shape(AMPLIFY, &mut rv, s)).collect();
    assert_eq!(out, vec![ONE / 2, 0, ONE / 2, 0, ONE / 4]);
    let mut none = None;
    assert_eq!(shape(250, &mut none, ONE), ONE / 4);
}

#[test]
fn negative_frequency_runs_backwards() {
    let mut osc = Oscillator::new(OscKind::Saw, -44000);
    let first = osc.next().unwrap();
    assert_eq!(osc.phase, 4_410_000 - 44000);
    let second = osc.next().unwrap();
    assert!(second < first);
    assert!(to_f64(first) > 0.9);
    let mut still = Oscillator::new(OscKind::Square, 0);
    assert_eq!(take(&mut still, 3), vec![ONE, ONE, ONE]);
    assert_eq!(still.phase, 0);
}
