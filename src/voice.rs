//! Voices: per-key note settings, the source each one composes, and the
//! keyboard whose waveform and effect settings apply to every key at once.
use vstd::prelude::*;
use crate::delay::{SabinReverb, silence, step_buf, step_out};
use crate::error::ConfigError;
use crate::fixed::{clamp, scale, scale_sat};
use crate::oscillator::{OscKind, Oscillator, DEFAULT_PHASE_RATE, DEFAULT_OUTPUT_RATE};

verus! {

/// The waveform a note plays.
#[derive(Clone, Copy, PartialEq, Eq, Structural, Debug)]
pub enum NoteWave {
    Sine,
    Square,
    Saw,
    Triangle,
}

/// Length and feedback gain (thousandths) of a feedback delay.
#[derive(Clone, Copy, PartialEq, Eq, Structural, Debug)]
pub struct ReverbPreset {
    pub delay: usize,
    pub feedback: i32,
}

/// Gain applied to every oscillator before the effect, in thousandths.
pub const AMPLIFY: i32 = 500;

/// The delay used with each waveform: a longer, stronger one for the square
/// wave, a shorter, softer one for the others.
pub open spec fn preset_for(wave: NoteWave) -> ReverbPreset {
    match wave {
        NoteWave::Square => ReverbPreset { delay: 250, feedback: 700 },
        _ => ReverbPreset { delay: 100, feedback: 500 },
    }
}

/// The computed oscillator kind of a waveform; the sine has none.
pub open spec fn osc_kind_of(wave: NoteWave) -> Option<OscKind> {
    match wave {
        NoteWave::Sine => None,
        NoteWave::Square => Some(OscKind::Square),
        NoteWave::Saw => Some(OscKind::Saw),
        NoteWave::Triangle => Some(OscKind::Triangle),
    }
}

/// What one voice plays: oscillator, fixed gain, and optional delay.
#[derive(Clone, Copy, PartialEq, Eq, Structural, Debug)]
pub struct SourcePlan {
    pub wave: NoteWave,
    /// Frequency in hundredths of a hertz.
    pub freq: i32,
    /// Gain in thousandths.
    pub gain: i32,
    pub reverb: Option<ReverbPreset>,
}

/// The settings of one playable key.
#[derive(Clone, Copy, PartialEq, Eq, Structural, Debug)]
pub struct Note {
    /// Frequency in hundredths of a hertz.
    pub freq: i32,
    pub wave: NoteWave,
    pub reverb: bool,
}

/// The plan a note with these settings composes.
pub open spec fn plan_of(note: Note) -> SourcePlan {
    SourcePlan {
        wave: note.wave,
        freq: note.freq,
        gain: AMPLIFY,
        reverb: if note.reverb {
            Some(preset_for(note.wave))
        } else {
            None
        },
    }
}

/// The delay preset for a waveform.
pub fn reverb_preset(wave: NoteWave) -> (r: ReverbPreset)
    ensures
        r == preset_for(wave),
{
    match wave {
        NoteWave::Square => ReverbPreset { delay: 250, feedback: 700 },
        _ => ReverbPreset { delay: 100, feedback: 500 },
    }
}

impl Note {
    /// A key at `freq` playing a sine wave without effect.
    pub fn new(freq: i32) -> (r: Note)
        ensures
            r == (Note { freq, wave: NoteWave::Sine, reverb: false }),
    {
        Note { freq, wave: NoteWave::Sine, reverb: false }
    }

    pub fn set_wave(&mut self, wave: NoteWave)
        ensures
            *final(self) == (Note { wave, ..*old(self) }),
    {
        self.wave = wave;
    }

    pub fn set_reverb(&mut self, reverb: bool)
        ensures
            *final(self) == (Note { reverb, ..*old(self) }),
    {
        self.reverb = reverb;
    }

    /// The source this note plays with its current settings: its waveform at
    /// its frequency, at half gain, through the waveform's delay when the
    /// effect is on.
    pub fn gen_source(&self) -> (r: SourcePlan)
        ensures
            r == plan_of(*self),
    {
        let reverb = if self.reverb {
            Some(reverb_preset(self.wave))
        } else {
            None
        };
        SourcePlan { wave: self.wave, freq: self.freq, gain: AMPLIFY, reverb }
    }
}

/// A plan can be started unless it asks for a delay of zero samples.
pub open spec fn plan_valid(plan: SourcePlan) -> bool {
    plan.reverb matches Some(p) ==> p.delay > 0
}

/// `rv` is the plan's delay, silent and at its start.
pub open spec fn fresh_effect(plan: SourcePlan, rv: SabinReverb) -> bool {
    &&& rv.wf()
    &&& plan.reverb matches Some(p) && rv.delay == p.delay && rv.feedback == p.feedback
    &&& rv.buffer@ == silence(rv.delay as nat)
    &&& rv.index == 0
}

/// `v` is the plan's source at its first sample: the plan's waveform at its
/// frequency and phase zero, its gain, and its delay if it has one.
pub open spec fn started(plan: SourcePlan, phase_rate: u32, output_rate: u32, v: Voice) -> bool {
    &&& v.wf()
    &&& Some(v.osc.kind) == osc_kind_of(plan.wave)
    &&& v.osc.freq == plan.freq
    &&& v.osc.phase == 0
    &&& v.osc.phase_rate == phase_rate
    &&& v.osc.output_rate == output_rate
    &&& v.gain == plan.gain
    &&& v.reverb is Some <==> plan.reverb is Some
    &&& v.reverb matches Some(rv) ==> fresh_effect(plan, rv)
}

/// The delay a plan asks for, silent; a delay of zero samples is refused.
pub fn effect_of(plan: &SourcePlan) -> (r: Result<Option<SabinReverb>, ConfigError>)
    ensures
        r is Err <==> !plan_valid(*plan),
        r matches Err(e) ==> e == ConfigError::ZeroDelay,
        r matches Ok(o) ==> (o is Some <==> plan.reverb is Some),
        r matches Ok(Some(rv)) ==> fresh_effect(*plan, rv),
{
    match plan.reverb {
        Some(p) => match SabinReverb::new(p.delay, p.feedback) {
            Ok(rv) => Ok(Some(rv)),
            Err(e) => Err(e),
        },
        None => Ok(None),
    }
}

/// The stage after an oscillator: the sample `s` scaled by `gain`
/// thousandths, then through the delay if there is one.
pub fn shape(gain: i32, reverb: &mut Option<SabinReverb>, s: i64) -> (r: i64)
    requires
        *old(reverb) matches Some(rv) ==> rv.wf(),
    ensures
        *final(reverb) matches Some(rv) ==> rv.wf(),
        (*final(reverb)) is Some == (*old(reverb)) is Some,
        ({
            let dry = clamp(scale(s as int, gain as int));
            match *old(reverb) {
                None => r == dry,
                Some(rv) => {
                    &&& r == step_out(rv.buffer@, rv.index as nat, dry)
                    &&& final(reverb).unwrap().buffer@ == step_buf(
                        rv.buffer@,
                        rv.index as nat,
                        rv.feedback as int,
                        dry,
                    )
                    &&& final(reverb).unwrap().index == (rv.index + 1) % (rv.delay as int)
                    &&& final(reverb).unwrap().delay == rv.delay
                    &&& final(reverb).unwrap().feedback == rv.feedback
                },
            }
        }),
{
    let dry = scale_sat(s, gain);
    match reverb {
        Some(rv) => rv.process(dry),
        None => dry,
    }
}

/// A running voice for a computed waveform: oscillator, gain, optional delay.
pub struct Voice {
    pub osc: Oscillator,
    pub gain: i32,
    pub reverb: Option<SabinReverb>,
}

impl Voice {
    pub open spec fn wf(&self) -> bool {
        &&& self.osc.wf()
        &&& self.reverb matches Some(rv) ==> rv.wf()
    }

    /// Starts the plan's source, with the oscillator advancing against
    /// `phase_rate` and declaring `output_rate`. A plan whose delay has zero
    /// length is refused; a sine plan has no computed oscillator and gives
    /// `Ok(None)`.
    pub fn from_plan(plan: &SourcePlan, phase_rate: u32, output_rate: u32) -> (r: Result<
        Option<Voice>,
        ConfigError,
    >)
        requires
            phase_rate > 0,
        ensures
            r is Err <==> !plan_valid(*plan),
            r matches Err(e) ==> e == ConfigError::ZeroDelay,
            r matches Ok(o) ==> (o is None <==> plan.wave == NoteWave::Sine),
            r matches Ok(Some(v)) ==> started(*plan, phase_rate, output_rate, v),
    {
        let reverb = match effect_of(plan) {
            Ok(rv) => rv,
            Err(e) => {
                return Err(e);
            },
        };
        let kind = match plan.wave {
            NoteWave::Sine => {
                return Ok(None);
            },
            NoteWave::Square => OscKind::Square,
            NoteWave::Saw => OscKind::Saw,
            NoteWave::Triangle => OscKind::Triangle,
        };
        let osc = Oscillator::with_rates(kind, plan.freq, phase_rate, output_rate);
        Ok(Some(Voice { osc, gain: plan.gain, reverb }))
    }

    /// Starts the plan's source with the default rates.
    pub fn start(plan: &SourcePlan) -> (r: Result<Option<Voice>, ConfigError>)
        ensures
            r is Err <==> !plan_valid(*plan),
            r matches Err(e) ==> e == ConfigError::ZeroDelay,
            r matches Ok(o) ==> (o is None <==> plan.wave == NoteWave::Sine),
            r matches Ok(Some(v)) ==> started(*plan, DEFAULT_PHASE_RATE, DEFAULT_OUTPUT_RATE, v),
    {
        Self::from_plan(plan, DEFAULT_PHASE_RATE, DEFAULT_OUTPUT_RATE)
    }

    /// Channel count of the stream: always mono.
    pub fn channels(&self) -> (r: u16)
        ensures
            r == 1,
    {
        self.osc.channels()
    }

    /// The sample rate declared to a consumer.
    pub fn sample_rate(&self) -> (r: u32)
        ensures
            r == self.osc.output_rate,
    {
        self.osc.sample_rate()
    }

    /// Next sample: the oscillator's, scaled by the gain, then through the
    /// delay if there is one. The stream never ends.
    pub fn next(&mut self) -> (r: Option<i64>)
        requires
            old(self).wf(),
        ensures
            final(self).wf(),
            final(self).gain == old(self).gain,
            final(self).osc.phase == crate::oscillator::advance_phase(
                old(self).osc.phase as nat,
                old(self).osc.freq as int,
                old(self).osc.period(),
            ),
            final(self).osc.kind == old(self).osc.kind,
            final(self).osc.freq == old(self).osc.freq,
            final(self).osc.phase_rate == old(self).osc.phase_rate,
            final(self).osc.output_rate == old(self).osc.output_rate,
            final(self).reverb is Some == old(self).reverb is Some,
            ({
                let dry = clamp(scale(final(self).osc.value(), old(self).gain as int));
                match old(self).reverb {
                    None => r == Some(dry as i64),
                    Some(rv) => {
                        &&& r == Some(step_out(rv.buffer@, rv.index as nat, dry))
                        &&& final(self).reverb.unwrap().buffer@ == step_buf(
                            rv.buffer@,
                            rv.index as nat,
                            rv.feedback as int,
                            dry,
                        )
                        &&& final(self).reverb.unwrap().index == (rv.index + 1) % (rv.delay as int)
                        &&& final(self).reverb.unwrap().delay == rv.delay
                        &&& final(self).reverb.unwrap().feedback == rv.feedback
                    },
                }
            }),
    {
        let raw = self.osc.next();
        let s = match raw {
            Some(v) => v,
            None => 0,
        };
        Some(shape(self.gain, &mut self.reverb, s))
    }
}

/// The keys of an instrument. Waveform and effect are set for all keys at
/// once; a key's source is composed from its own frequency and those shared
/// settings.
pub struct Keyboard {
    pub notes: Vec<Note>,
}

impl Keyboard {
    /// One key for each frequency, all playing a sine wave without effect.
    pub fn new(freqs: &Vec<i32>) -> (r: Keyboard)
        ensures
            r.notes@.len() == freqs@.len(),
            forall|i: int|
                0 <= i < freqs@.len() ==> r.notes@[i] == (Note {
                    freq: freqs@[i],
                    wave: NoteWave::Sine,
                    reverb: false,
                }),
    {
        let mut notes: Vec<Note> = Vec::new();
        let mut i: usize = 0;
        while i < freqs.len()
            invariant
                i <= freqs@.len(),
                notes@.len() == i,
                forall|j: int|
                    0 <= j < i ==> notes@[j] == (Note {
                        freq: freqs@[j],
                        wave: NoteWave::Sine,
                        reverb: false,
                    }),
            decreases freqs@.len() - i,
        {
            notes.push(Note::new(freqs[i]));
            i = i + 1;
        }
        Keyboard { notes }
    }

    /// Selects the waveform of every key.
    pub fn set_wave(&mut self, wave: NoteWave)
        ensures
            final(self).notes@.len() == old(self).notes@.len(),
            forall|i: int|
                0 <= i < old(self).notes@.len() ==> final(self).notes@[i] == (Note {
                    wave,
                    ..old(self).notes@[i]
                }),
    {
        let mut i: usize = 0;
        while i < self.notes.len()
            invariant
                i <= self.notes@.len(),
                self.notes@.len() == old(self).notes@.len(),
                forall|j: int|
                    0 <= j < i ==> self.notes@[j] == (Note { wave, ..old(self).notes@[j] }),
                forall|j: int| i <= j < self.notes@.len() ==> self.notes@[j] == old(self).notes@[j],
            decreases self.notes@.len() - i,
        {
            let mut n = self.notes[i];
            n.set_wave(wave);
            self.notes.set(i, n);
            i = i + 1;
        }
    }

    /// Switches the effect of every key on or off.
    pub fn set_reverb(&mut self, reverb: bool)
        ensures
            final(self).notes@.len() == old(self).notes@.len(),
            forall|i: int|
                0 <= i < old(self).notes@.len() ==> final(self).notes@[i] == (Note {
                    reverb,
                    ..old(self).notes@[i]
                }),
    {
        let mut i: usize = 0;
        while i < self.notes.len()
            invariant
                i <= self.notes@.len(),
                self.notes@.len() == old(self).notes@.len(),
                forall|j: int|
                    0 <= j < i ==> self.notes@[j] == (Note { reverb, ..old(self).notes@[j] }),
                forall|j: int| i <= j < self.notes@.len() ==> self.notes@[j] == old(self).notes@[j],
            decreases self.notes@.len() - i,
        {
            let mut n = self.notes[i];
            n.set_reverb(reverb);
            self.notes.set(i, n);
            i = i + 1;
        }
    }

    /// The source key `key` plays now.
    pub fn gen_source(&self, key: usize) -> (r: SourcePlan)
        requires
            key < self.notes@.len(),
        ensures
            r == plan_of(self.notes@[key as int]),
    {
        self.notes[key].gen_source()
    }
}

} // verus!
