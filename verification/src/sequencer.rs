//! The standalone step sequencer: the same verified clock, pool and mixer as
//! the timeline path, owning its own patterns, tempo and meter. What a
//! buffer renders is pinned to `render_from`, so the sequencer's output is a
//! function of its state, its patterns and the bank alone.

use vstd::prelude::*;
use vstd::string::StringExecFns;
use crate::engine::{AudioState, AudioStateV, render_from, spec_samples_per_step, trigger_all, voices_view};
use crate::pattern::{Pattern, Step, UNIT_MILLI};
use crate::samples::SampleBank;
use crate::time_signature::TimeSignature;
use crate::timeline::patterns_equal;

verus! {

/// A pattern sequencer bound to one tempo, meter and loop length, driving
/// the shared audio state.
#[derive(Debug)]
pub struct Sequencer {
    pub state: AudioState,
    pub playing: bool,
    pub bpm: u32,
    pub sample_rate: u32,
    pub time_signature: TimeSignature,
    pub patterns: Vec<Pattern>,
}

impl Sequencer {
    /// A stopped sequencer at 4/4 with a sixteen-step loop, sixteen silent
    /// voices and no patterns.
    pub fn new(sample_rate: u32, bpm: u32) -> (r: Sequencer)
        requires
            bpm >= 1,
            spec_samples_per_step(sample_rate as int, bpm as int) <= usize::MAX,
        ensures
            r.state.current_step == 0,
            r.state.sample_counter == 0,
            r.state.samples_per_step == spec_samples_per_step(sample_rate as int, bpm as int),
            r.state.loop_length == 16,
            r.state.voices@.len() == 16,
            forall|i: int| 0 <= i < 16 ==> !(#[trigger] r.state.voices@[i])@.active,
            !r.playing,
            r.bpm == bpm,
            r.sample_rate == sample_rate,
            r.time_signature == (TimeSignature { numerator: 4u8, denominator: 4u8 }),
            r.patterns@.len() == 0,
    {
        Sequencer {
            state: AudioState::new(sample_rate, bpm),
            playing: false,
            bpm,
            sample_rate,
            time_signature: TimeSignature::four_four(),
            patterns: Vec::new(),
        }
    }

    /// Sets the tempo and re-derives the step span.
    pub fn set_bpm(&mut self, bpm: u32)
        requires
            bpm >= 1,
            spec_samples_per_step(old(self).sample_rate as int, bpm as int) <= usize::MAX,
        ensures
            final(self).bpm == bpm,
            final(self).state.samples_per_step == spec_samples_per_step(
                old(self).sample_rate as int,
                bpm as int,
            ),
            final(self).state.current_step == old(self).state.current_step,
            final(self).state.sample_counter == old(self).state.sample_counter,
            final(self).state.loop_length == old(self).state.loop_length,
            final(self).state.voices == old(self).state.voices,
            final(self).playing == old(self).playing,
            final(self).sample_rate == old(self).sample_rate,
            final(self).time_signature == old(self).time_signature,
            final(self).patterns == old(self).patterns,
    {
        self.bpm = bpm;
        self.state.update_timing(self.sample_rate, self.bpm);
    }

    /// The tempo, in thousandths of a beat per minute.
    pub fn get_bpm(&self) -> (r: u32)
        ensures
            r == self.bpm,
    {
        self.bpm
    }

    /// Starts playback.
    pub fn play(&mut self)
        ensures
            *final(self) == (Sequencer { playing: true, ..*old(self) }),
    {
        self.playing = true;
    }

    /// Stops playback, rewinds the clock to step zero and silences every
    /// voice in place.
    #[verifier::loop_isolation(false)]
    pub fn stop(&mut self)
        ensures
            !final(self).playing,
            final(self).state.current_step == 0,
            final(self).state.sample_counter == 0,
            final(self).state.samples_per_step == old(self).state.samples_per_step,
            final(self).state.loop_length == old(self).state.loop_length,
            final(self).state.voices@.len() == old(self).state.voices@.len(),
            forall|i: int|
                0 <= i < old(self).state.voices@.len() ==> !(#[trigger] final(self).state.voices@[i])@.active && final(self).state.voices@[i]@.sample_position
                    == old(self).state.voices@[i]@.sample_position,
            final(self).bpm == old(self).bpm,
            final(self).sample_rate == old(self).sample_rate,
            final(self).time_signature == old(self).time_signature,
            final(self).patterns == old(self).patterns,
    {
        self.playing = false;
        self.state.current_step = 0;
        self.state.sample_counter = 0;
        let mut i: usize = 0;
        while i < self.state.voices.len()
            invariant
                i <= self.state.voices@.len(),
                self.state.voices@.len() == old(self).state.voices@.len(),
                !self.playing,
                self.state.current_step == 0,
                self.state.sample_counter == 0,
                self.state.samples_per_step == old(self).state.samples_per_step,
                self.state.loop_length == old(self).state.loop_length,
                self.bpm == old(self).bpm,
                self.sample_rate == old(self).sample_rate,
                self.time_signature == old(self).time_signature,
                self.patterns == old(self).patterns,
                forall|j: int|
                    0 <= j < i ==> !(#[trigger] self.state.voices@[j])@.active
                        && self.state.voices@[j]@.sample_position == old(self).state.voices@[j]@.sample_position,
                forall|j: int|
                    i <= j < self.state.voices@.len() ==> #[trigger] self.state.voices@[j]
                        == old(self).state.voices@[j],
            decreases self.state.voices@.len() - i,
        {
            let v = vstd::std_specs::vec::vec_index_mut(&mut self.state.voices, i);
            v.active = false;
            i = i + 1;
        }
    }

    /// Pauses playback, keeping the clock where it stands.
    pub fn pause(&mut self)
        ensures
            *final(self) == (Sequencer { playing: false, ..*old(self) }),
    {
        self.playing = false;
    }

    /// Whether the sequencer is playing.
    pub fn is_playing(&self) -> (r: bool)
        ensures
            r == self.playing,
    {
        self.playing
    }

    /// The step the clock stands on.
    pub fn get_current_step(&self) -> (r: usize)
        ensures
            r == self.state.current_step,
    {
        self.state.current_step
    }

    /// The loop length in steps.
    pub fn get_loop_length(&self) -> (r: usize)
        ensures
            r == self.state.loop_length,
    {
        self.state.loop_length
    }

    /// Samples rendered since the last step boundary.
    pub fn get_sample_counter(&self) -> (r: usize)
        ensures
            r == self.state.sample_counter,
    {
        self.state.sample_counter
    }

    /// The meter.
    pub fn get_time_signature(&self) -> (r: TimeSignature)
        ensures
            r == self.time_signature,
    {
        self.time_signature
    }

    /// Sets the meter and, when it differs, adopts the loop length that
    /// gives each beat four steps (left unchanged if outside 1..=64).
    pub fn set_time_signature(&mut self, time_signature: TimeSignature)
        ensures
            final(self).time_signature == time_signature,
            ({
                let opt = time_signature.numerator * 4;
                if opt != old(self).state.loop_length && 1 <= opt <= 64 {
                    final(self).state.loop_length == opt && (old(self).state.current_step >= opt
                        ==> final(self).state.current_step == 0 && final(self).state.sample_counter == 0) && (old(self).state.current_step < opt ==> final(self).state.current_step == old(self).state.current_step && final(self).state.sample_counter == old(self).state.sample_counter)
                } else {
                    final(self).state.loop_length == old(self).state.loop_length && final(self).state.current_step == old(self).state.current_step && final(self).state.sample_counter == old(self).state.sample_counter
                }
            }),
            final(self).state.samples_per_step == old(self).state.samples_per_step,
            final(self).state.voices == old(self).state.voices,
            final(self).playing == old(self).playing,
            final(self).bpm == old(self).bpm,
            final(self).sample_rate == old(self).sample_rate,
            final(self).patterns == old(self).patterns,
    {
        self.time_signature = time_signature;
        let optimal = time_signature.optimal_loop_length(4);
        if optimal != self.state.loop_length {
            self.set_loop_length(optimal);
        }
    }

    /// Sets the loop length when it lies in 1..=64, rewinding the clock if
    /// the current step falls outside the new loop; other lengths are
    /// ignored.
    pub fn set_loop_length(&mut self, new_length: usize)
        ensures
            ({
                if 1 <= new_length <= 64 {
                    final(self).state.loop_length == new_length && (old(self).state.current_step
                        >= new_length ==> final(self).state.current_step == 0 && final(self).state.sample_counter == 0) && (old(self).state.current_step < new_length
                        ==> final(self).state.current_step == old(self).state.current_step
                        && final(self).state.sample_counter == old(self).state.sample_counter)
                } else {
                    final(self).state.loop_length == old(self).state.loop_length && final(self).state.current_step == old(self).state.current_step && final(self).state.sample_counter == old(self).state.sample_counter
                }
            }),
            final(self).state.samples_per_step == old(self).state.samples_per_step,
            final(self).state.voices == old(self).state.voices,
            final(self).playing == old(self).playing,
            final(self).bpm == old(self).bpm,
            final(self).sample_rate == old(self).sample_rate,
            final(self).time_signature == old(self).time_signature,
            final(self).patterns == old(self).patterns,
    {
        if new_length >= 1 && new_length <= 64 {
            self.state.loop_length = new_length;
            if self.state.current_step >= new_length {
                self.state.current_step = 0;
                self.state.sample_counter = 0;
            }
        }
    }

    /// Moves the clock one step forward around the loop.
    pub fn advance_step(&mut self)
        requires
            old(self).state.loop_length >= 1,
        ensures
            final(self).state.current_step == (old(self).state.current_step + 1) % (old(self).state.loop_length as int),
            *final(self) == (Sequencer { state: final(self).state, ..*old(self) }),
            final(self).state == (AudioState {
                current_step: final(self).state.current_step,
                ..old(self).state
            }),
    {
        proof {
            vstd::arithmetic::div_mod::lemma_add_mod_noop(
                old(self).state.current_step as int,
                1,
                self.state.loop_length as int,
            );
            vstd::arithmetic::div_mod::lemma_mod_bound(
                old(self).state.current_step as int,
                self.state.loop_length as int,
            );
            if self.state.loop_length > 1 {
                vstd::arithmetic::div_mod::lemma_small_mod(1, self.state.loop_length as nat);
            } else {
                vstd::arithmetic::div_mod::lemma_mod_self_0(1);
                vstd::arithmetic::div_mod::lemma_mod_bound(
                    old(self).state.current_step as int % 1 + 1,
                    1,
                );
                vstd::arithmetic::div_mod::lemma_mod_bound(
                    old(self).state.current_step as int + 1,
                    1,
                );
            }
        }
        let wrapped = self.state.current_step % self.state.loop_length;
        self.state.current_step = (wrapped + 1) % self.state.loop_length;
    }

    /// Fires the current step against the given patterns, exactly as
    /// `trigger_all` says.
    pub fn trigger_current_step(&mut self, bank: &SampleBank, patterns: &Vec<Pattern>)
        ensures
            voices_view(final(self).state.voices@) == trigger_all(
                voices_view(old(self).state.voices@),
                patterns@,
                old(self).state.current_step as int,
            ),
            final(self).state.voices@.len() == old(self).state.voices@.len(),
            final(self).state.current_step == old(self).state.current_step,
            final(self).state.samples_per_step == old(self).state.samples_per_step,
            final(self).state.sample_counter == old(self).state.sample_counter,
            final(self).state.loop_length == old(self).state.loop_length,
            final(self).playing == old(self).playing,
            final(self).bpm == old(self).bpm,
            final(self).sample_rate == old(self).sample_rate,
            final(self).time_signature == old(self).time_signature,
            final(self).patterns == old(self).patterns,
    {
        self.state.trigger_current_step(bank, patterns);
    }

    /// The sequencer's own patterns.
    pub fn get_patterns(&self) -> (r: &Vec<Pattern>)
        ensures
            r == self.patterns,
    {
        &self.patterns
    }

    /// The sequencer's own patterns, for editing.
    pub fn get_patterns_mut(&mut self) -> (r: &mut Vec<Pattern>)
        ensures
            *r == old(self).patterns,
            *final(self) == (Sequencer { patterns: *final(r), ..*old(self) }),
    {
        &mut self.patterns
    }

    /// Replaces the patterns with the built-in kit: kick on the downbeats,
    /// snare on beats two and four, hi-hat off the beat, and five silent
    /// tracks, each as long as the loop.
    #[verifier::loop_isolation(false)]
    pub fn initialize_default_patterns(&mut self)
        ensures
            final(self).patterns@.len() == 8,
            forall|p: int|
                0 <= p < 8 ==> (#[trigger] final(self).patterns@[p]).steps@.len() == old(self).state.loop_length,
            final(self).patterns@[0].sample_name@ == "kick"@,
            final(self).patterns@[1].sample_name@ == "snare"@,
            final(self).patterns@[2].sample_name@ == "hihat"@,
            final(self).patterns@[3].sample_name@ == "crash"@,
            final(self).patterns@[4].sample_name@ == "open_hihat"@,
            final(self).patterns@[5].sample_name@ == "clap"@,
            final(self).patterns@[6].sample_name@ == "rimshot"@,
            final(self).patterns@[7].sample_name@ == "tom"@,
            final(self).patterns@[0].name@ == "Kick"@,
            final(self).patterns@[1].name@ == "Snare"@,
            final(self).patterns@[2].name@ == "Hi-Hat"@,
            forall|j: int|
                0 <= j < old(self).state.loop_length ==> ((#[trigger] final(self).patterns@[0].steps@[j]).active <==> (j == 0 || j == 4 || j == 8 || j == 12)),
            forall|j: int|
                0 <= j < old(self).state.loop_length ==> ((#[trigger] final(self).patterns@[1].steps@[j]).active <==> (j == 4 || j == 12)),
            forall|j: int|
                0 <= j < old(self).state.loop_length ==> ((#[trigger] final(self).patterns@[2].steps@[j]).active <==> (j == 2 || j == 6 || j == 10 || j == 14)),
            forall|p: int, j: int|
                3 <= p < 8 && 0 <= j < old(self).state.loop_length ==> !(#[trigger] final(self).patterns@[p].steps@[j]).active,
            forall|p: int, j: int|
                0 <= p < 8 && 0 <= j < old(self).state.loop_length ==> (#[trigger] final(self).patterns@[p].steps@[j]).velocity == UNIT_MILLI,
            *final(self) == (Sequencer { patterns: final(self).patterns, ..*old(self) }),
    {
        let n = self.state.loop_length;
        self.patterns = Vec::new();
        let hit = Step { active: true, velocity: UNIT_MILLI };
        let mut kick = Pattern::new(String::from_str("Kick"), String::from_str("kick"), n);
        kick.set_step(0, hit);
        kick.set_step(4, hit);
        kick.set_step(8, hit);
        kick.set_step(12, hit);
        self.patterns.push(kick);
        let mut snare = Pattern::new(String::from_str("Snare"), String::from_str("snare"), n);
        snare.set_step(4, hit);
        snare.set_step(12, hit);
        self.patterns.push(snare);
        let mut hihat = Pattern::new(String::from_str("Hi-Hat"), String::from_str("hihat"), n);
        hihat.set_step(2, hit);
        hihat.set_step(6, hit);
        hihat.set_step(10, hit);
        hihat.set_step(14, hit);
        self.patterns.push(hihat);
        let crash = Pattern::new(String::from_str("Crash"), String::from_str("crash"), n);
        self.patterns.push(crash);
        let open_hihat = Pattern::new(
            String::from_str("Open Hi-Hat"),
            String::from_str("open_hihat"),
            n,
        );
        self.patterns.push(open_hihat);
        let clap = Pattern::new(String::from_str("Clap"), String::from_str("clap"), n);
        self.patterns.push(clap);
        let rimshot = Pattern::new(String::from_str("Rim Shot"), String::from_str("rimshot"), n);
        self.patterns.push(rimshot);
        let tom = Pattern::new(String::from_str("Tom"), String::from_str("tom"), n);
        self.patterns.push(tom);
    }

    /// Clears the output and, while playing, renders the given patterns into
    /// it exactly as `render_from` says; stopped, it leaves silence.
    #[verifier::loop_isolation(false)]
    pub fn process_audio_with_patterns(
        &mut self,
        out: &mut Vec<i32>,
        bank: &SampleBank,
        patterns: &Vec<Pattern>,
    )
        requires
            old(self).state.wf(),
            old(self).state.voices@.len() <= 16,
            old(self).bpm >= 1,
            spec_samples_per_step(old(self).sample_rate as int, old(self).bpm as int)
                <= usize::MAX,
            old(self).state.samples_per_step == 0 ==> spec_samples_per_step(
                old(self).sample_rate as int,
                old(self).bpm as int,
            ) >= 1,
        ensures
            final(out)@.len() == old(out)@.len(),
            !old(self).playing ==> *final(self) == *old(self) && (forall|k: int|
                0 <= k < final(out)@.len() ==> final(out)@[k] == 0),
            old(self).playing ==> ({
                let zeros = Seq::new(old(out)@.len(), |k: int| 0i32);
                let st0 = AudioStateV {
                    samples_per_step: if old(self).state.samples_per_step == 0 {
                        spec_samples_per_step(old(self).sample_rate as int, old(self).bpm as int)
                    } else {
                        old(self).state.samples_per_step as int
                    },
                    ..old(self).state@
                };
                let (st1, out1) = render_from(st0, bank.entries(), patterns@, zeros, 0);
                final(self).state@ == st1 && final(out)@ == out1 && final(self).playing && final(self).bpm == old(self).bpm && final(self).sample_rate == old(self).sample_rate
                    && final(self).time_signature == old(self).time_signature && final(self).patterns == old(self).patterns
            }),
            final(self).state.wf(),
            final(self).state.voices@.len() == old(self).state.voices@.len(),
            final(self).state.loop_length == old(self).state.loop_length,
    {
        let ghost zeros = Seq::new(out@.len(), |k: int| 0i32);
        let mut z: usize = 0;
        while z < out.len()
            invariant
                z <= out@.len(),
                out@.len() == old(out)@.len(),
                forall|k: int| 0 <= k < z ==> out@[k] == 0,
            decreases out@.len() - z,
        {
            out.set(z, 0);
            z = z + 1;
        }
        proof {
            assert(out@ =~= zeros);
        }
        if !self.playing {
            return;
        }
        self.state.process_patterns(out, bank, patterns, self.bpm, self.sample_rate);
    }

    /// Renders the sequencer's own patterns, as
    /// `process_audio_with_patterns` does with them.
    pub fn process_audio(&mut self, out: &mut Vec<i32>, bank: &SampleBank)
        requires
            old(self).state.wf(),
            old(self).state.voices@.len() <= 16,
            old(self).bpm >= 1,
            spec_samples_per_step(old(self).sample_rate as int, old(self).bpm as int)
                <= usize::MAX,
            old(self).state.samples_per_step == 0 ==> spec_samples_per_step(
                old(self).sample_rate as int,
                old(self).bpm as int,
            ) >= 1,
        ensures
            final(out)@.len() == old(out)@.len(),
            !old(self).playing ==> *final(self) == *old(self) && (forall|k: int|
                0 <= k < final(out)@.len() ==> final(out)@[k] == 0),
            old(self).playing ==> ({
                let zeros = Seq::new(old(out)@.len(), |k: int| 0i32);
                let st0 = AudioStateV {
                    samples_per_step: if old(self).state.samples_per_step == 0 {
                        spec_samples_per_step(old(self).sample_rate as int, old(self).bpm as int)
                    } else {
                        old(self).state.samples_per_step as int
                    },
                    ..old(self).state@
                };
                let (st1, out1) = render_from(st0, bank.entries(), old(self).patterns@, zeros, 0);
                final(self).state@ == st1 && final(out)@ == out1
            }),
            final(self).state.wf(),
            final(self).state.voices@.len() == old(self).state.voices@.len(),
            final(self).state.loop_length == old(self).state.loop_length,
    {
        let copied = clone_patterns(&self.patterns);
        proof {
            if self.playing {
                let zeros = Seq::new(out@.len(), |k: int| 0i32);
                let st0 = AudioStateV {
                    samples_per_step: if self.state.samples_per_step == 0 {
                        spec_samples_per_step(self.sample_rate as int, self.bpm as int)
                    } else {
                        self.state.samples_per_step as int
                    },
                    ..self.state@
                };
                crate::engine::lemma_render_deterministic(
                    st0,
                    bank.entries(),
                    copied@,
                    self.patterns@,
                    zeros,
                    0,
                );
            }
        }
        self.process_audio_with_patterns(out, bank, &copied);
    }
}

/// A deep copy of a pattern list, equal in contents.
#[verifier::loop_isolation(false)]
fn clone_patterns(v: &Vec<Pattern>) -> (r: Vec<Pattern>)
    ensures
        r@.len() == v@.len(),
        patterns_equal(r@, v@),
{
    let mut r: Vec<Pattern> = Vec::new();
    let mut i: usize = 0;
    while i < v.len()
        invariant
            i <= v@.len(),
            r@.len() == i,
            forall|j: int|
                0 <= j < i ==> #[trigger] r@[j].name@ == v@[j].name@ && r@[j].sample_name@
                    == v@[j].sample_name@ && r@[j].steps@ == v@[j].steps@,
        decreases v@.len() - i,
    {
        let p = v[i].clone();
        r.push(p);
        i = i + 1;
    }
    r
}

} // verus!
