//! The audio-thread side of the sequencer: a fixed pool of voices, the
//! per-buffer step clock, and the mixing loop that renders patterns into an
//! output buffer. Output samples are 32-bit integers in the same fixed-point
//! scale as the stored PCM (full scale 32767); velocities and the master
//! volume are in thousandths. Every step of the render path is specified
//! exactly, so one buffer's output is a function of the starting state, the
//! patterns and the bank alone.

use vstd::prelude::*;
use crate::pattern::Pattern;
use crate::samples::{Sample, SampleBank, find_sample};

verus! {

/// The widest value one voice can add to one output sample: full-scale PCM
/// times the largest velocity, in thousandths.
pub const VOICE_MIX_BOUND: i32 = 2_200_000;

/// One in-flight sample playback: a cursor into the named PCM buffer and the
/// velocity it is mixed at.
#[derive(Debug)]
pub struct Voice {
    pub sample_position: usize,
    pub sample_name: String,
    pub velocity: u16,
    pub active: bool,
}

/// The ghost image of a voice: its cursor, name, velocity and liveness.
pub ghost struct VoiceV {
    pub sample_position: int,
    pub sample_name: Seq<char>,
    pub velocity: int,
    pub active: bool,
}

impl View for Voice {
    type V = VoiceV;

    open spec fn view(&self) -> VoiceV {
        VoiceV {
            sample_position: self.sample_position as int,
            sample_name: self.sample_name@,
            velocity: self.velocity as int,
            active: self.active,
        }
    }
}

/// A PCM value scaled by a velocity in thousandths, truncated toward zero as
/// the mixer computes it.
pub open spec fn scaled(s: int, vel: int) -> int {
    if s >= 0 {
        s * vel / 1000
    } else {
        -((-s) * vel / 1000)
    }
}

/// The PCM value at a cursor, zero past the end of the data.
pub open spec fn sample_at(data: Seq<i16>, pos: int) -> int {
    if 0 <= pos < data.len() {
        data[pos] as int
    } else {
        0
    }
}

/// What mixing one voice over the output range `[s, e)` yields: the voice
/// afterwards and the new output. An inactive voice changes nothing; a voice
/// naming a missing sample merely goes silent; otherwise each covered output
/// sample gains the voice's PCM at the advancing cursor, scaled by its
/// velocity, the cursor stops at the data's end, and the voice stays active
/// exactly when the range ran out before the data did.
pub open spec fn voice_mix(
    v: VoiceV,
    bank: Seq<(String, Sample)>,
    out: Seq<i32>,
    s: int,
    e: int,
) -> (VoiceV, Seq<i32>) {
    if !v.active {
        (v, out)
    } else {
        match find_sample(bank, v.sample_name) {
            None => (VoiceV { active: false, ..v }, out),
            Some(smp) => {
                let d = smp.data@;
                let n = e - s;
                let p0 = v.sample_position;
                let newpos = if p0 >= d.len() {
                    p0
                } else if p0 + n <= d.len() {
                    p0 + n
                } else {
                    d.len() as int
                };
                let newact = n == 0 || p0 + n <= d.len();
                let newout = Seq::new(
                    out.len(),
                    |k: int|
                        if s <= k < e {
                            (out[k] + scaled(sample_at(d, p0 + (k - s)), v.velocity)) as i32
                        } else {
                            out[k]
                        },
                );
                (VoiceV { sample_position: newpos, active: newact, ..v }, newout)
            },
        }
    }
}

impl Voice {
    /// A silent voice at rest.
    pub fn new() -> (r: Voice)
        ensures
            r.sample_position == 0,
            r.sample_name@.len() == 0,
            r.velocity == 1000,
            !r.active,
    {
        Voice { sample_position: 0, sample_name: String::new(), velocity: 1000, active: false }
    }

    /// Starts the voice on a sample from its beginning at the given velocity.
    pub fn trigger(&mut self, sample_name: String, velocity: u16)
        ensures
            final(self).sample_position == 0,
            final(self).sample_name == sample_name,
            final(self).velocity == velocity,
            final(self).active,
    {
        self.sample_name = sample_name;
        self.velocity = velocity;
        self.sample_position = 0;
        self.active = true;
    }

    /// Silences the voice and clears its state.
    pub fn reset(&mut self)
        ensures
            final(self).sample_position == 0,
            final(self).sample_name@.len() == 0,
            final(self).velocity == 1000,
            !final(self).active,
    {
        self.sample_position = 0;
        self.sample_name = String::new();
        self.velocity = 1000;
        self.active = false;
    }

    /// Mixes this voice into `out[start..end]` exactly as `voice_mix` says.
    #[verifier::loop_isolation(false)]
    pub fn process(&mut self, out: &mut Vec<i32>, start: usize, end: usize, bank: &SampleBank)
        requires
            start <= end <= old(out)@.len(),
            forall|k: int|
                start <= k < end ==> -100_000_000 <= #[trigger] old(out)@[k] <= 100_000_000,
        ensures
            ({
                let (nv, nout) = voice_mix(old(self)@, bank.entries(), old(out)@, start as int,
                    end as int);
                final(self)@ == nv && final(out)@ == nout
            }),
            final(out)@.len() == old(out)@.len(),
            forall|k: int|
                !(start <= k < end) && 0 <= k < old(out)@.len() ==> final(out)@[k] == old(
                    out,
                )@[k],
            forall|k: int|
                start <= k < end ==> old(out)@[k] - VOICE_MIX_BOUND <= #[trigger] final(out)@[k]
                    <= old(out)@[k] + VOICE_MIX_BOUND,
    {
        if !self.active {
            return;
        }
        let smp = match bank.get_sample(self.sample_name.as_str()) {
            Some(s) => s,
            None => {
                self.active = false;
                return;
            },
        };
        let dlen = smp.data.len();
        let ghost d = smp.data@;
        let ghost p0 = self.sample_position as int;
        let mut k = start;
        while k < end && self.sample_position < dlen
            invariant
                start <= k <= end,
                self.sample_position == p0 + (k - start) || (p0 >= d.len() && k == start
                    && self.sample_position == p0),
                p0 < d.len() ==> self.sample_position <= d.len(),
                p0 >= d.len() ==> k == start && self.sample_position == p0,
                self.active == old(self).active,
                self.sample_name == old(self).sample_name,
                self.velocity == old(self).velocity,
                out@.len() == old(out)@.len(),
                forall|j: int|
                    !(start <= j < k) && 0 <= j < old(out)@.len() ==> out@[j] == old(out)@[j],
                forall|j: int|
                    start <= j < k ==> out@[j] == old(out)@[j] + scaled(
                        sample_at(d, p0 + (j - start)),
                        old(self).velocity as int,
                    ),
                forall|j: int|
                    start <= j < k ==> old(out)@[j] - VOICE_MIX_BOUND <= #[trigger] out@[j]
                        <= old(out)@[j] + VOICE_MIX_BOUND,
            decreases end - k,
        {
            let sval = smp.data[self.sample_position];
            let gain = scaled_exec(sval, self.velocity);
            let cur = out[k];
            out.set(k, cur + gain);
            self.sample_position = self.sample_position + 1;
            k = k + 1;
        }
        if k < end {
            self.active = false;
        }
        proof {
            let (nv, nout) = voice_mix(old(self)@, bank.entries(), old(out)@, start as int,
                end as int);
            assert(find_sample(bank.entries(), old(self)@.sample_name) == Some(*smp));
            assert forall|j: int| 0 <= j < out@.len() implies out@[j] == nout[j] by {
                if start <= j < k {
                    assert(out@[j] == old(out)@[j] + scaled(
                        sample_at(d, p0 + (j - start)),
                        old(self)@.velocity,
                    ));
                } else if k <= j < end {
                    assert(sample_at(d, p0 + (j - start)) == 0);
                    assert(scaled(0, old(self)@.velocity) == 0) by {
                        vstd::arithmetic::mul::lemma_mul_basics(old(self)@.velocity);
                    }
                    assert(out@[j] == old(out)@[j]);
                }
            }
            assert(out@ =~= nout);
            let n = end - start;
            if p0 >= d.len() {
                assert(self@.sample_position == p0);
                assert(nv.sample_position == p0);
                assert(self@.active == nv.active);
            } else if k == end as int {
                assert(self@.sample_position == p0 + n);
                assert(p0 + n <= d.len());
                assert(nv.sample_position == p0 + n);
                assert(self@.active && nv.active);
            } else {
                assert(self@.sample_position == d.len());
                assert(p0 + n > d.len());
                assert(nv.sample_position == d.len());
                assert(!self@.active && !nv.active);
            }
            assert(self@ == nv);
        }
    }
}

/// Computes `scaled` exactly, within the per-voice mixing bound.
fn scaled_exec(s: i16, vel: u16) -> (r: i32)
    ensures
        r == scaled(s as int, vel as int),
        -VOICE_MIX_BOUND <= r <= VOICE_MIX_BOUND,
{
    proof {
        vstd::arithmetic::mul::lemma_mul_upper_bound(
            if s >= 0 {
                s as int
            } else {
                -(s as int)
            },
            32768,
            vel as int,
            65535,
        );
        vstd::arithmetic::mul::lemma_mul_nonnegative(
            if s >= 0 {
                s as int
            } else {
                -(s as int)
            },
            vel as int,
        );
        vstd::arithmetic::div_mod::lemma_div_is_ordered(
            (if s >= 0 {
                s as int
            } else {
                -(s as int)
            }) * vel as int,
            (32768 * 65535) as int,
            1000,
        );
        vstd::arithmetic::div_mod::lemma_div_pos_is_pos(
            (if s >= 0 {
                s as int
            } else {
                -(s as int)
            }) * vel as int,
            1000,
        );
    }
    if s >= 0 {
        let m = (s as u64) * (vel as u64) / 1000;
        m as i32
    } else {
        let neg = -(s as i32);
        let m = (neg as u64) * (vel as u64) / 1000;
        let mi = m as i32;
        -mi
    }
}


/// The ghost views of a voice pool.
pub open spec fn voices_view(vs: Seq<Voice>) -> Seq<VoiceV> {
    Seq::new(vs.len(), |i: int| vs[i]@)
}

/// The index of the first inactive voice at or after `i`, if any.
pub open spec fn first_inactive(vs: Seq<VoiceV>, i: int) -> Option<int>
    decreases vs.len() - i,
{
    if i < 0 || i >= vs.len() {
        None
    } else if !vs[i].active {
        Some(i)
    } else {
        first_inactive(vs, i + 1)
    }
}

/// A voice just started on a sample.
pub open spec fn triggered(name: Seq<char>, vel: int) -> VoiceV {
    VoiceV { sample_position: 0, sample_name: name, velocity: vel, active: true }
}

/// What one pattern does to the pool at a step: if the pattern's step is
/// active, the first inactive voice starts on the pattern's sample at the
/// step's velocity; with no free voice, or an inactive or out-of-range step,
/// nothing changes.
pub open spec fn trigger_one(vs: Seq<VoiceV>, p: Pattern, step: int) -> Seq<VoiceV> {
    if 0 <= step < p.steps@.len() && p.steps@[step].active {
        match first_inactive(vs, 0) {
            Some(i) => vs.update(i, triggered(p.sample_name@, p.steps@[step].velocity as int)),
            None => vs,
        }
    } else {
        vs
    }
}

/// What all patterns, in order, do to the pool at a step.
pub open spec fn trigger_all(vs: Seq<VoiceV>, ps: Seq<Pattern>, step: int) -> Seq<VoiceV>
    decreases ps.len(),
{
    if ps.len() == 0 {
        vs
    } else {
        trigger_all(trigger_one(vs, ps[0], step), ps.drop_first(), step)
    }
}

/// The pool after the first `j` voices each mixed the output range `[s, e)`,
/// together with that output.
pub open spec fn mix_prefix(
    vs: Seq<VoiceV>,
    bank: Seq<(String, Sample)>,
    out: Seq<i32>,
    s: int,
    e: int,
    j: int,
) -> (Seq<VoiceV>, Seq<i32>)
    decreases j,
{
    if j <= 0 {
        (vs, out)
    } else {
        let (pv, po) = mix_prefix(vs, bank, out, s, e, j - 1);
        let (nv, no) = voice_mix(pv[j - 1], bank, po, s, e);
        (pv.update(j - 1, nv), no)
    }
}

/// The pool and output after every voice mixed the range `[s, e)`.
pub open spec fn mix_all(
    vs: Seq<VoiceV>,
    bank: Seq<(String, Sample)>,
    out: Seq<i32>,
    s: int,
    e: int,
) -> (Seq<VoiceV>, Seq<i32>) {
    mix_prefix(vs, bank, out, s, e, vs.len() as int)
}

/// The audio-thread step clock and its voice pool.
pub ghost struct AudioStateV {
    pub current_step: int,
    pub samples_per_step: int,
    pub sample_counter: int,
    pub voices: Seq<VoiceV>,
    pub loop_length: int,
}

/// Samples a sixteenth-note step spans: the rate divided by steps per
/// second, which is `bpm / 15000` for a tempo in thousandths of a beat per
/// minute, truncated to whole samples.
pub open spec fn spec_samples_per_step(sample_rate: int, bpm: int) -> int {
    sample_rate * 15_000 / bpm
}

/// One whole-buffer render, chunk by chunk, starting `i` samples in: at each
/// step boundary (a zero sample counter) the patterns trigger voices, then
/// every voice mixes up to the next boundary or the buffer's end, whichever
/// is nearer, and crossing a boundary advances the step around the loop.
/// Mixing keeps the buffer's length (`lemma_mix_prefix_len`), so the guard
/// on the recursive call only keeps the measure visibly well founded.
pub open spec fn render_from(
    st: AudioStateV,
    bank: Seq<(String, Sample)>,
    ps: Seq<Pattern>,
    out: Seq<i32>,
    i: int,
) -> (AudioStateV, Seq<i32>)
    decreases out.len() - i,
{
    if i < 0 || i >= out.len() {
        (st, out)
    } else {
        let vs1 = if st.sample_counter == 0 {
            trigger_all(st.voices, ps, st.current_step)
        } else {
            st.voices
        };
        let m = if out.len() - i < st.samples_per_step - st.sample_counter {
            out.len() - i
        } else {
            st.samples_per_step - st.sample_counter
        };
        let n = if m < 1 {
            1
        } else if m > out.len() - i {
            out.len() - i
        } else {
            m
        };
        let (vs2, out2) = mix_all(vs1, bank, out, i, i + n);
        let out3 = if out2.len() == out.len() {
            out2
        } else {
            out
        };
        let c2 = st.sample_counter + n;
        let st2 = if c2 >= st.samples_per_step {
            AudioStateV {
                current_step: (st.current_step + 1) % st.loop_length,
                sample_counter: 0,
                voices: vs2,
                ..st
            }
        } else {
            AudioStateV { sample_counter: c2, voices: vs2, ..st }
        };
        render_from(st2, bank, ps, out3, i + n)
    }
}

/// Mixing preserves the output's length (so the recursion in `render_from`
/// always continues on a buffer of the same size).
pub proof fn lemma_mix_prefix_len(
    vs: Seq<VoiceV>,
    bank: Seq<(String, Sample)>,
    out: Seq<i32>,
    s: int,
    e: int,
    j: int,
)
    requires
        j <= vs.len(),
    ensures
        mix_prefix(vs, bank, out, s, e, j).0.len() == vs.len(),
        mix_prefix(vs, bank, out, s, e, j).1.len() == out.len(),
    decreases j,
{
    if j > 0 {
        lemma_mix_prefix_len(vs, bank, out, s, e, j - 1);
    }
}

/// The audio callback's private step sequencer: the current step, the step
/// clock, and a fixed pool of voices. Owned by the render path alone.
#[derive(Debug)]
pub struct AudioState {
    pub current_step: usize,
    pub samples_per_step: usize,
    pub sample_counter: usize,
    pub voices: Vec<Voice>,
    pub loop_length: usize,
}

impl AudioState {
    /// The ghost image of the state.
    pub open spec fn view(self) -> AudioStateV {
        AudioStateV {
            current_step: self.current_step as int,
            samples_per_step: self.samples_per_step as int,
            sample_counter: self.sample_counter as int,
            voices: voices_view(self.voices@),
            loop_length: self.loop_length as int,
        }
    }

    /// The state a render can run from: a nonempty loop, a positive step
    /// span (or one still to be derived), and a counter inside the span.
    pub open spec fn wf(self) -> bool {
        &&& self.loop_length >= 1
        &&& self.samples_per_step != 0 ==> self.sample_counter < self.samples_per_step
        &&& self.samples_per_step == 0 ==> self.sample_counter == 0
    }

    /// A fresh state: step zero, a sixteen-voice pool, a sixteen-step loop,
    /// and timing derived from the tempo and rate.
    #[verifier::loop_isolation(false)]
    pub fn new(sample_rate: u32, bpm: u32) -> (r: AudioState)
        requires
            bpm >= 1,
            spec_samples_per_step(sample_rate as int, bpm as int) <= usize::MAX,
        ensures
            r.current_step == 0,
            r.samples_per_step == spec_samples_per_step(sample_rate as int, bpm as int),
            r.sample_counter == 0,
            r.loop_length == 16,
            r.voices@.len() == 16,
            forall|i: int|
                0 <= i < 16 ==> !(#[trigger] r.voices@[i])@.active
                    && r.voices@[i]@.sample_position == 0,
            r.wf() || r.samples_per_step == 0,
    {
        let mut voices: Vec<Voice> = Vec::new();
        let mut i: usize = 0;
        while i < 16
            invariant
                i <= 16,
                voices@.len() == i,
                forall|j: int|
                    0 <= j < i ==> !(#[trigger] voices@[j])@.active && voices@[j]@.sample_position
                        == 0,
            decreases 16 - i,
        {
            voices.push(Voice::new());
            i = i + 1;
        }
        let mut state = AudioState {
            current_step: 0,
            samples_per_step: 0,
            sample_counter: 0,
            voices,
            loop_length: 16,
        };
        state.update_timing(sample_rate, bpm);
        state
    }

    /// Rewinds the clock to step zero and silences every voice.
    #[verifier::loop_isolation(false)]
    pub fn reset(&mut self)
        ensures
            final(self).current_step == 0,
            final(self).sample_counter == 0,
            final(self).samples_per_step == old(self).samples_per_step,
            final(self).loop_length == old(self).loop_length,
            final(self).voices@.len() == old(self).voices@.len(),
            forall|i: int|
                0 <= i < old(self).voices@.len() ==> !(#[trigger] final(self).voices@[i])@.active
                    && final(self).voices@[i]@.sample_position == 0
                    && final(self).voices@[i]@.sample_name.len() == 0
                    && final(self).voices@[i]@.velocity == 1000,
            old(self).wf() ==> final(self).wf(),
    {
        self.current_step = 0;
        self.sample_counter = 0;
        let mut i: usize = 0;
        while i < self.voices.len()
            invariant
                i <= self.voices@.len(),
                self.voices@.len() == old(self).voices@.len(),
                self.current_step == 0,
                self.sample_counter == 0,
                self.samples_per_step == old(self).samples_per_step,
                self.loop_length == old(self).loop_length,
                forall|j: int|
                    0 <= j < i ==> !(#[trigger] self.voices@[j])@.active
                        && self.voices@[j]@.sample_position == 0
                        && self.voices@[j]@.sample_name.len() == 0 && self.voices@[j]@.velocity
                        == 1000,
            decreases self.voices@.len() - i,
        {
            let v = vstd::std_specs::vec::vec_index_mut(&mut self.voices, i);
            v.reset();
            i = i + 1;
        }
    }

    /// Re-derives the step span from the tempo and sample rate.
    pub fn update_timing(&mut self, sample_rate: u32, bpm: u32)
        requires
            bpm >= 1,
            spec_samples_per_step(sample_rate as int, bpm as int) <= usize::MAX,
        ensures
            *final(self) == (AudioState {
                samples_per_step: final(self).samples_per_step,
                ..*old(self)
            }),
            final(self).samples_per_step == spec_samples_per_step(sample_rate as int, bpm as int),
    {
        proof {
            vstd::arithmetic::mul::lemma_mul_upper_bound(
                sample_rate as int,
                u32::MAX as int,
                15_000,
                15_000,
            );
            vstd::arithmetic::mul::lemma_mul_nonnegative(sample_rate as int, 15_000);
            vstd::arithmetic::div_mod::lemma_div_pos_is_pos(
                sample_rate as int * 15_000,
                bpm as int,
            );
        }
        let wide = (sample_rate as u64) * 15_000u64;
        self.samples_per_step = (wide / (bpm as u64)) as usize;
    }

    /// Re-derives the timing and aligns the current step with a timeline
    /// position inside a segment, so playback resumes where the cursor
    /// stands: the step is the count of whole sixteenth notes elapsed since
    /// the segment began, wrapped to the loop.
    pub fn synchronize_with_timeline(
        &mut self,
        timeline_position: u64,
        segment_start_time: u64,
        bpm: u32,
        sample_rate: u32,
    )
        requires
            bpm >= 1,
            spec_samples_per_step(sample_rate as int, bpm as int) <= usize::MAX,
            timeline_position >= segment_start_time,
            old(self).loop_length >= 1,
        ensures
            final(self).current_step == ((timeline_position - segment_start_time) * bpm
                / 15_000_000_000) % (old(self).loop_length as int),
            final(self).sample_counter == 0,
            final(self).samples_per_step == spec_samples_per_step(sample_rate as int, bpm as int),
            final(self).loop_length == old(self).loop_length,
            final(self).voices == old(self).voices,
            final(self).wf(),
    {
        self.update_timing(sample_rate, bpm);
        proof {
            vstd::arithmetic::mul::lemma_mul_upper_bound(
                (timeline_position - segment_start_time) as int,
                u64::MAX as int,
                bpm as int,
                u32::MAX as int,
            );
            vstd::arithmetic::mul::lemma_mul_nonnegative(
                (timeline_position - segment_start_time) as int,
                bpm as int,
            );
            vstd::arithmetic::div_mod::lemma_div_pos_is_pos(
                (timeline_position - segment_start_time) as int * bpm as int,
                15_000_000_000,
            );
            vstd::arithmetic::div_mod::lemma_mod_bound(
                (timeline_position - segment_start_time) as int * bpm as int / 15_000_000_000,
                self.loop_length as int,
            );
        }
        let elapsed = timeline_position - segment_start_time;
        let steps = ((elapsed as u128) * (bpm as u128)) / 15_000_000_000u128;
        self.current_step = (steps % (self.loop_length as u128)) as usize;
        self.sample_counter = 0;
    }
}

impl AudioState {
    /// Fires the current step: every pattern whose step is active claims the
    /// first free voice for its sample at the step's velocity, in pattern
    /// order, exactly as `trigger_all` says. A full pool drops the trigger
    /// silently; nothing else changes.
    #[verifier::loop_isolation(false)]
    pub fn trigger_current_step(&mut self, bank: &SampleBank, patterns: &Vec<Pattern>)
        ensures
            voices_view(final(self).voices@) == trigger_all(
                voices_view(old(self).voices@),
                patterns@,
                old(self).current_step as int,
            ),
            final(self).voices@.len() == old(self).voices@.len(),
            final(self).current_step == old(self).current_step,
            final(self).samples_per_step == old(self).samples_per_step,
            final(self).sample_counter == old(self).sample_counter,
            final(self).loop_length == old(self).loop_length,
    {
        let ghost init = voices_view(self.voices@);
        let ghost ps = patterns@;
        let ghost step = self.current_step as int;
        let mut pi: usize = 0;
        proof {
            assert(ps.skip(0) =~= ps);
        }
        while pi < patterns.len()
            invariant
                pi <= ps.len(),
                self.current_step == old(self).current_step,
                self.samples_per_step == old(self).samples_per_step,
                self.sample_counter == old(self).sample_counter,
                self.loop_length == old(self).loop_length,
                self.voices@.len() == old(self).voices@.len(),
                trigger_all(init, ps, step) == trigger_all(
                    voices_view(self.voices@),
                    ps.skip(pi as int),
                    step,
                ),
            decreases ps.len() - pi,
        {
            proof {
                assert(ps.skip(pi as int)[0] == ps[pi as int]);
                assert(ps.skip(pi as int).drop_first() =~= ps.skip(pi as int + 1));
            }
            let ghost cur = voices_view(self.voices@);
            let plen = patterns[pi].steps.len();
            if self.current_step < plen {
                let st = patterns[pi].steps[self.current_step];
                if st.active {
                    let mut vi: usize = 0;
                    while vi < self.voices.len() && self.voices[vi].active
                        invariant
                            vi <= self.voices@.len(),
                            voices_view(self.voices@) == cur,
                            first_inactive(cur, 0) == first_inactive(cur, vi as int),
                        decreases self.voices@.len() - vi,
                    {
                        proof {
                            assert(cur[vi as int].active);
                        }
                        vi = vi + 1;
                    }
                    if vi < self.voices.len() {
                        proof {
                            assert(!cur[vi as int].active);
                            assert(first_inactive(cur, 0) == Some(vi as int));
                        }
                        let name = patterns[pi].sample_name.clone();
                        let v = vstd::std_specs::vec::vec_index_mut(&mut self.voices, vi);
                        v.trigger(name, st.velocity);
                        proof {
                            assert(voices_view(self.voices@) =~= cur.update(
                                vi as int,
                                triggered(
                                    ps[pi as int].sample_name@,
                                    ps[pi as int].steps@[step].velocity as int,
                                ),
                            ));
                            assert(voices_view(self.voices@) == trigger_one(
                                cur,
                                ps[pi as int],
                                step,
                            ));
                        }
                    } else {
                        proof {
                            assert(first_inactive(cur, 0) == None::<int>);
                            assert(voices_view(self.voices@) == trigger_one(
                                cur,
                                ps[pi as int],
                                step,
                            ));
                        }
                    }
                } else {
                    proof {
                        assert(voices_view(self.voices@) == trigger_one(cur, ps[pi as int], step));
                    }
                }
            } else {
                proof {
                    assert(voices_view(self.voices@) == trigger_one(cur, ps[pi as int], step));
                }
            }
            proof {
                assert(trigger_all(cur, ps.skip(pi as int), step) == trigger_all(
                    voices_view(self.voices@),
                    ps.skip(pi as int + 1),
                    step,
                ));
            }
            pi = pi + 1;
        }
        proof {
            assert(ps.skip(ps.len() as int) =~= Seq::<Pattern>::empty());
        }
    }

    /// Renders one buffer of patterns into a zeroed output, exactly as
    /// `render_from` says: a step span still unset is first derived from the
    /// tempo and rate, then chunk after chunk the due steps trigger voices
    /// and the pool mixes, with sample-accurate step boundaries.
    #[verifier::loop_isolation(false)]
    pub fn process_patterns(
        &mut self,
        out: &mut Vec<i32>,
        bank: &SampleBank,
        patterns: &Vec<Pattern>,
        bpm: u32,
        sample_rate: u32,
    )
        requires
            old(self).wf(),
            old(self).voices@.len() <= 16,
            bpm >= 1,
            spec_samples_per_step(sample_rate as int, bpm as int) <= usize::MAX,
            old(self).samples_per_step == 0 ==> spec_samples_per_step(
                sample_rate as int,
                bpm as int,
            ) >= 1,
            forall|k: int| 0 <= k < old(out)@.len() ==> old(out)@[k] == 0,
        ensures
            ({
                let st0 = AudioStateV {
                    samples_per_step: if old(self).samples_per_step == 0 {
                        spec_samples_per_step(sample_rate as int, bpm as int)
                    } else {
                        old(self).samples_per_step as int
                    },
                    ..old(self)@
                };
                let (st1, out1) = render_from(st0, bank.entries(), patterns@, old(out)@, 0);
                final(self)@ == st1 && final(out)@ == out1
            }),
            final(out)@.len() == old(out)@.len(),
            forall|k: int|
                0 <= k < final(out)@.len() ==> -36_000_000 <= #[trigger] final(out)@[k]
                    <= 36_000_000,
            final(self).wf(),
            final(self).loop_length == old(self).loop_length,
            final(self).voices@.len() == old(self).voices@.len(),
    {
        if self.samples_per_step == 0 {
            self.update_timing(sample_rate, bpm);
        }
        let ghost st0 = self@;
        let ghost out0 = out@;
        let ghost bankv = bank.entries();
        let ghost ps = patterns@;
        let mut i: usize = 0;
        while i < out.len()
            invariant
                i <= out@.len(),
                out@.len() == out0.len(),
                self.samples_per_step == st0.samples_per_step,
                self.samples_per_step >= 1,
                self.loop_length == st0.loop_length,
                self.loop_length >= 1,
                self.sample_counter < self.samples_per_step,
                self.voices@.len() == old(self).voices@.len(),
                render_from(st0, bankv, ps, out0, 0) == render_from(self@, bankv, ps, out@,
                    i as int),
                forall|k: int| i <= k < out@.len() ==> out@[k] == 0,
                forall|k: int|
                    0 <= k < i ==> -36_000_000 <= #[trigger] out@[k] <= 36_000_000,
            decreases out@.len() - i,
        {
            let ghost pre_st = self@;
            let ghost pre_out = out@;
            if self.sample_counter == 0 {
                self.trigger_current_step(bank, patterns);
            }
            let remaining = out.len() - i;
            let until_next = self.samples_per_step - self.sample_counter;
            let n = if remaining < until_next {
                remaining
            } else {
                until_next
            };
            let e = i + n;
            let ghost mix_vs0 = voices_view(self.voices@);
            let ghost mix_out0 = out@;
            let mut j: usize = 0;
            while j < self.voices.len()
                invariant
                    j <= self.voices@.len(),
                    self.voices@.len() == mix_vs0.len(),
                    mix_vs0.len() == old(self).voices@.len(),
                    i < e <= out@.len(),
                    e == i + n,
                    out@.len() == out0.len(),
                    self.current_step == pre_st.current_step,
                    self.samples_per_step == pre_st.samples_per_step,
                    self.sample_counter == pre_st.sample_counter,
                    self.loop_length == pre_st.loop_length,
                    (voices_view(self.voices@), out@) == mix_prefix(mix_vs0, bankv, mix_out0,
                        i as int, e as int, j as int),
                    forall|k: int|
                        !(i <= k < e) && 0 <= k < out@.len() ==> out@[k] == mix_out0[k],
                    forall|k: int|
                        i <= k < e ==> -(j as int) * VOICE_MIX_BOUND <= #[trigger] out@[k] <= (
                        j as int) * VOICE_MIX_BOUND,
                    forall|k: int| i <= k < e ==> mix_out0[k] == 0,
                decreases self.voices@.len() - j,
            {
                proof {
                    lemma_mix_prefix_len(mix_vs0, bankv, mix_out0, i as int, e as int, j as int);
                    assert(voices_view(self.voices@)[j as int] == self.voices@[j as int]@);
                }
                let v = vstd::std_specs::vec::vec_index_mut(&mut self.voices, j);
                v.process(out, i, e, bank);
                j = j + 1;
                proof {
                    assert(voices_view(self.voices@) =~= mix_prefix(mix_vs0, bankv, mix_out0,
                        i as int, e as int, j as int).0);
                    assert(out@ == mix_prefix(mix_vs0, bankv, mix_out0, i as int, e as int,
                        j as int).1);
                }
            }
            proof {
                let vs1 = if pre_st.sample_counter == 0 {
                    trigger_all(pre_st.voices, ps, pre_st.current_step)
                } else {
                    pre_st.voices
                };
                assert(mix_vs0 == vs1);
                assert(mix_out0 == pre_out);
                assert((voices_view(self.voices@), out@) == mix_all(vs1, bankv, pre_out,
                    i as int, e as int));
            }
            self.sample_counter = self.sample_counter + n;
            if self.sample_counter >= self.samples_per_step {
                proof {
                    vstd::arithmetic::div_mod::lemma_add_mod_noop(
                        pre_st.current_step,
                        1,
                        self.loop_length as int,
                    );
                    vstd::arithmetic::div_mod::lemma_mod_bound(
                        pre_st.current_step,
                        self.loop_length as int,
                    );
                    if self.loop_length > 1 {
                        vstd::arithmetic::div_mod::lemma_small_mod(1, self.loop_length as nat);
                    } else {
                        vstd::arithmetic::div_mod::lemma_mod_self_0(1);
                        vstd::arithmetic::div_mod::lemma_mod_bound(
                            pre_st.current_step % 1 + 1,
                            1,
                        );
                        vstd::arithmetic::div_mod::lemma_mod_bound(pre_st.current_step + 1, 1);
                    }
                }
                let wrapped = self.current_step % self.loop_length;
                self.current_step = (wrapped + 1) % self.loop_length;
                self.sample_counter = 0;
                proof {
                    assert(self.current_step == (pre_st.current_step + 1) % pre_st.loop_length);
                }
            }
            let ghost iold = i as int;
            i = e;
            proof {
                assert forall|k: int|
                    0 <= k < i implies -36_000_000 <= #[trigger] out@[k] <= 36_000_000 by {
                    if iold <= k < e {
                        assert(-(mix_vs0.len() as int) * VOICE_MIX_BOUND <= out@[k] <= (
                        mix_vs0.len() as int) * VOICE_MIX_BOUND);
                        assert(mix_vs0.len() <= 16);
                    } else {
                        assert(out@[k] == mix_out0[k]);
                        assert(mix_out0[k] == pre_out[k]);
                        assert(-36_000_000 <= pre_out[k] <= 36_000_000);
                    }
                }
                assert forall|k: int| i <= k < out@.len() implies out@[k] == 0 by {
                    assert(out@[k] == mix_out0[k]);
                    assert(mix_out0[k] == pre_out[k]);
                    assert(pre_out[k] == 0);
                }
                lemma_render_unfold_step(pre_st, bankv, ps, pre_out, iold, n as int, self@,
                    out@);
            }
        }
    }
}

/// One unfolding of `render_from`: when the chunk taken matches the spec's
/// chunk and the state and output after it match the spec's, the render from
/// before the chunk equals the render from after it.
proof fn lemma_render_unfold_step(
    st: AudioStateV,
    bank: Seq<(String, Sample)>,
    ps: Seq<Pattern>,
    out: Seq<i32>,
    i: int,
    n: int,
    st2: AudioStateV,
    out2: Seq<i32>,
)
    requires
        0 <= i < out.len(),
        st.samples_per_step >= 1,
        0 <= st.sample_counter < st.samples_per_step,
        n == if out.len() - i < st.samples_per_step - st.sample_counter {
            out.len() - i
        } else {
            st.samples_per_step - st.sample_counter
        },
        ({
            let vs1 = if st.sample_counter == 0 {
                trigger_all(st.voices, ps, st.current_step)
            } else {
                st.voices
            };
            let (vs2, o2) = mix_all(vs1, bank, out, i, i + n);
            &&& out2 == o2
            &&& o2.len() == out.len()
            &&& st2.voices == vs2
            &&& st2.samples_per_step == st.samples_per_step
            &&& st2.loop_length == st.loop_length
            &&& (st.sample_counter + n >= st.samples_per_step ==> st2.current_step == (
            st.current_step + 1) % st.loop_length && st2.sample_counter == 0)
            &&& (st.sample_counter + n < st.samples_per_step ==> st2.current_step
                == st.current_step && st2.sample_counter == st.sample_counter + n)
        }),
    ensures
        render_from(st, bank, ps, out, i) == render_from(st2, bank, ps, out2, i + n),
{
    let vs1 = if st.sample_counter == 0 {
        trigger_all(st.voices, ps, st.current_step)
    } else {
        st.voices
    };
    let m = if out.len() - i < st.samples_per_step - st.sample_counter {
        out.len() - i
    } else {
        st.samples_per_step - st.sample_counter
    };
    assert(1 <= m <= out.len() - i);
    assert(m == n);
    let (vs2, o2) = mix_all(vs1, bank, out, i, i + n);
    assert(render_from(st, bank, ps, out, i) == render_from(st2, bank, ps, o2, i + n));
}

/// At 120 beats per minute, sixteenth notes divide the sample rate by eight:
/// two beats a second make eight steps a second.
pub proof fn lemma_sixteenth_steps_at_120_bpm(sample_rate: int)
    requires
        sample_rate >= 0,
    ensures
        spec_samples_per_step(sample_rate, 120_000) == sample_rate / 8,
{
    assert(sample_rate * 15_000 == 15_000 * sample_rate) by {
        vstd::arithmetic::mul::lemma_mul_is_commutative(sample_rate, 15_000);
    }
    assert((sample_rate * 15_000) / 120_000 == (sample_rate * 15_000 / 15_000) / 8) by {
        vstd::arithmetic::div_mod::lemma_div_denominator(sample_rate * 15_000, 15_000, 8);
    }
    assert(sample_rate * 15_000 / 15_000 == sample_rate) by {
        vstd::arithmetic::div_mod::lemma_div_multiples_vanish(sample_rate, 15_000);
    }
}


/// Rendering is deterministic in the contents alone: two pattern lists with
/// the same names, sample bindings and steps drive the render to the same
/// states and the same output, whatever strings or vectors hold them. With
/// `process_patterns` pinning its result to `render_from`, equal starting
/// state, patterns, bank and buffer give byte-identical output, run after
/// run and buffer after buffer.
pub proof fn lemma_render_deterministic(
    st: AudioStateV,
    bank: Seq<(String, Sample)>,
    ps1: Seq<Pattern>,
    ps2: Seq<Pattern>,
    out: Seq<i32>,
    i: int,
)
    requires
        crate::timeline::patterns_equal(ps1, ps2),
    ensures
        render_from(st, bank, ps1, out, i) == render_from(st, bank, ps2, out, i),
    decreases out.len() - i,
{
    if 0 <= i < out.len() {
        lemma_trigger_all_equal(st.voices, ps1, ps2, st.current_step);
        let vs1 = if st.sample_counter == 0 {
            trigger_all(st.voices, ps1, st.current_step)
        } else {
            st.voices
        };
        let m = if out.len() - i < st.samples_per_step - st.sample_counter {
            out.len() - i
        } else {
            st.samples_per_step - st.sample_counter
        };
        let n = if m < 1 {
            1
        } else if m > out.len() - i {
            out.len() - i
        } else {
            m
        };
        let (vs2, out2) = mix_all(vs1, bank, out, i, i + n);
        let out3 = if out2.len() == out.len() {
            out2
        } else {
            out
        };
        let c2 = st.sample_counter + n;
        let st2 = if c2 >= st.samples_per_step {
            AudioStateV {
                current_step: (st.current_step + 1) % st.loop_length,
                sample_counter: 0,
                voices: vs2,
                ..st
            }
        } else {
            AudioStateV { sample_counter: c2, voices: vs2, ..st }
        };
        lemma_render_deterministic(st2, bank, ps1, ps2, out3, i + n);
    }
}

/// Triggering reads only the contents of the patterns, so lists equal in
/// contents trigger identically.
proof fn lemma_trigger_all_equal(vs: Seq<VoiceV>, ps1: Seq<Pattern>, ps2: Seq<Pattern>, step: int)
    requires
        crate::timeline::patterns_equal(ps1, ps2),
    ensures
        trigger_all(vs, ps1, step) == trigger_all(vs, ps2, step),
    decreases ps1.len(),
{
    if ps1.len() > 0 {
        assert(ps1[0].name@ == ps2[0].name@ && ps1[0].sample_name@ == ps2[0].sample_name@
            && ps1[0].steps@ == ps2[0].steps@);
        assert(trigger_one(vs, ps1[0], step) == trigger_one(vs, ps2[0], step));
        assert(crate::timeline::patterns_equal(ps1.drop_first(), ps2.drop_first())) by {
            assert forall|j: int|
                0 <= j < ps1.drop_first().len() implies #[trigger] ps1.drop_first()[j].name@
                == ps2.drop_first()[j].name@ && ps1.drop_first()[j].sample_name@
                == ps2.drop_first()[j].sample_name@ && ps1.drop_first()[j].steps@
                == ps2.drop_first()[j].steps@ by {
                assert(ps1.drop_first()[j] == ps1[j + 1]);
                assert(ps2.drop_first()[j] == ps2[j + 1]);
            }
        }
        lemma_trigger_all_equal(trigger_one(vs, ps1[0], step), ps1.drop_first(),
            ps2.drop_first(), step);
    }
}

/// A pool with every voice silenced and rewound.
pub open spec fn silenced(vs: Seq<VoiceV>) -> Seq<VoiceV> {
    Seq::new(
        vs.len(),
        |i: int|
            VoiceV {
                sample_position: 0,
                sample_name: Seq::<char>::empty(),
                velocity: 1000,
                active: false,
            },
    )
}

/// The sequencer state after the callback has reacted to a transport edge:
/// stopping rewinds and silences it, starting aligns it with the cursor's
/// place in the current segment (if the cursor lies in one), and otherwise
/// it is untouched.
pub open spec fn after_transition(
    st: AudioStateV,
    was_playing: bool,
    tl: crate::timeline::Timeline,
    sample_rate: int,
) -> AudioStateV {
    let playing = tl.playback_state == crate::timeline::PlaybackState::Playing;
    if was_playing && !playing {
        AudioStateV { current_step: 0, sample_counter: 0, voices: silenced(st.voices), ..st }
    } else if !was_playing && playing {
        match crate::timeline::first_containing(tl.segments@, tl.current_position as int, 0) {
            Some(k) => {
                let seg = tl.segments@[k];
                AudioStateV {
                    current_step: ((tl.current_position - seg.start_time) * seg.bpm
                        / 15_000_000_000) % st.loop_length,
                    sample_counter: 0,
                    samples_per_step: spec_samples_per_step(sample_rate, seg.bpm as int),
                    ..st
                }
            },
            None => st,
        }
    } else {
        st
    }
}

/// The timeline and verdict after one buffer's advance: nothing moves unless
/// playing; reaching the end stops and rewinds.
pub open spec fn advanced_timeline(tl: crate::timeline::Timeline, delta: int) -> (
    crate::timeline::Timeline,
    bool,
) {
    if tl.playback_state != crate::timeline::PlaybackState::Playing {
        (tl, false)
    } else {
        let np = if tl.current_position + delta <= u64::MAX {
            tl.current_position + delta
        } else {
            u64::MAX as int
        };
        if np >= crate::timeline::max_end(tl.segments@) {
            (
                crate::timeline::Timeline {
                    playback_state: crate::timeline::PlaybackState::Stopped,
                    current_position: 0,
                    ..tl
                },
                false,
            )
        } else {
            (crate::timeline::Timeline { current_position: np as u64, ..tl }, true)
        }
    }
}

/// The audio callback's whole private state: the step sequencer and the
/// transport state it saw last buffer, for edge detection. Constructed once
/// at engine startup and owned by the callback alone.
#[derive(Debug)]
pub struct AudioCallback {
    pub state: AudioState,
    pub last_playing: bool,
}

impl AudioCallback {
    /// A callback state around a fresh sequencer.
    pub fn new(sample_rate: u32, bpm: u32) -> (r: AudioCallback)
        requires
            bpm >= 1,
            spec_samples_per_step(sample_rate as int, bpm as int) <= usize::MAX,
        ensures
            r.state.current_step == 0,
            r.state.sample_counter == 0,
            r.state.loop_length == 16,
            r.state.voices@.len() == 16,
            !r.last_playing,
            r.state.wf() || r.state.samples_per_step == 0,
    {
        AudioCallback { state: AudioState::new(sample_rate, bpm), last_playing: false }
    }

    /// One buffer of the audio thread's work, from the shared timeline to
    /// the output: clears the buffer, reacts to a play/stop edge exactly
    /// once, advances the timeline by the buffer's span, renders the current
    /// segment's patterns if one is under the cursor, and applies the master
    /// volume. Stopped or out-of-segment buffers come back silent.
    #[verifier::loop_isolation(false)]
    pub fn process_buffer(
        &mut self,
        timeline: &mut crate::timeline::Timeline,
        bank: &SampleBank,
        out: &mut Vec<i32>,
        sample_rate: u32,
        master_volume: u32,
    )
        requires
            old(timeline).wf(),
            old(self).state.wf(),
            old(self).state.voices@.len() <= 16,
            sample_rate >= 1,
            sample_rate * 15_000 <= usize::MAX,
            master_volume <= 2000,
            old(out)@.len() <= 1_000_000_000,
            forall|i: int|
                0 <= i < old(timeline).segments@.len() ==> 1 <= #[trigger] old(
                    timeline,
                ).segments@[i].bpm <= sample_rate * 15_000,
        ensures
            final(out)@.len() == old(out)@.len(),
            final(self).last_playing == (old(timeline).playback_state
                == crate::timeline::PlaybackState::Playing),
            final(self).state.wf(),
            final(self).state.voices@.len() == old(self).state.voices@.len(),
            final(self).state.loop_length == old(self).state.loop_length,
            ({
                let st1 = after_transition(old(self).state@, old(self).last_playing,
                    *old(timeline), sample_rate as int);
                let delta = old(out)@.len() as int * 1_000_000 / (sample_rate as int);
                let (tl2, adv) = advanced_timeline(*old(timeline), delta);
                let zeros = Seq::new(old(out)@.len(), |k: int| 0i32);
                &&& *final(timeline) == tl2
                &&& if adv {
                    match crate::timeline::first_containing(
                        tl2.segments@,
                        tl2.current_position as int,
                        0,
                    ) {
                        Some(k) => {
                            let seg = tl2.segments@[k];
                            let st2 = AudioStateV {
                                samples_per_step: if st1.samples_per_step == 0 {
                                    spec_samples_per_step(sample_rate as int, seg.bpm as int)
                                } else {
                                    st1.samples_per_step
                                },
                                ..st1
                            };
                            let (st3, out1) = render_from(st2, bank.entries(), seg.patterns@,
                                zeros, 0);
                            final(self).state@ == st3 && final(out)@ == Seq::new(
                                out1.len(),
                                |k: int| scaled(out1[k] as int, master_volume as int) as i32,
                            )
                        },
                        None => final(self).state@ == st1 && (forall|k: int|
                            0 <= k < final(out)@.len() ==> final(out)@[k] == 0),
                    }
                } else {
                    final(self).state@ == st1 && (forall|k: int|
                        0 <= k < final(out)@.len() ==> final(out)@[k] == 0)
                }
            }),
    {
        let ghost zeros = Seq::new(out@.len(), |k: int| 0i32);
        let mut z: usize = 0;
        while z < out.len()
            invariant
                z <= out@.len(),
                out@.len() == old(out)@.len(),
                forall|k: int| 0 <= k < z ==> out@[k] == 0,
            decreases out@.len() - z,
        {
            out.set(z, 0);
            z = z + 1;
        }
        proof {
            assert(out@ =~= zeros);
        }
        let playing = timeline.is_playing();
        if self.last_playing && !playing {
            self.state.reset();
            proof {
                assert forall|i: int|
                    0 <= i < self.state.voices@.len() implies voices_view(
                    self.state.voices@,
                )[i] == silenced(voices_view(old(self).state.voices@))[i] by {
                    assert(self.state.voices@[i]@.sample_name =~= Seq::<char>::empty());
                }
                assert(voices_view(self.state.voices@) =~= silenced(
                    voices_view(old(self).state.voices@),
                ));
            }
        } else if !self.last_playing && playing {
            let mut do_sync = false;
            let mut seg_start: u64 = 0;
            let mut seg_bpm: u32 = 1;
            match timeline.get_current_segment() {
                Some(seg) => {
                    do_sync = true;
                    seg_start = seg.start_time;
                    seg_bpm = seg.bpm;
                    proof {
                        crate::timeline::lemma_first_containing_props(
                            timeline.segments@,
                            timeline.current_position as int,
                            0,
                        );
                        match crate::timeline::first_containing(
                            timeline.segments@,
                            timeline.current_position as int,
                            0,
                        ) {
                            Some(kk) => {
                                assert(1 <= old(timeline).segments@[kk].bpm <= sample_rate
                                    * 15_000);
                            },
                            None => {},
                        }
                    }
                },
                None => {},
            }
            if do_sync {
                proof {
                    vstd::arithmetic::mul::lemma_mul_nonnegative(sample_rate as int, 15_000);
                    vstd::arithmetic::div_mod::lemma_div_nonincreasing(
                        sample_rate as int * 15_000,
                        seg_bpm as int,
                    );
                }
                self.state.synchronize_with_timeline(
                    timeline.current_position,
                    seg_start,
                    seg_bpm,
                    sample_rate,
                );
            }
        }
        self.last_playing = playing;
        let ghost st1 = self.state@;
        proof {
            assert(st1 == after_transition(old(self).state@, old(self).last_playing,
                *old(timeline), sample_rate as int));
        }
        let mut rendered = false;
        if playing {
            proof {
                vstd::arithmetic::mul::lemma_mul_upper_bound(
                    out@.len() as int,
                    1_000_000_000,
                    1_000_000,
                    1_000_000,
                );
                vstd::arithmetic::mul::lemma_mul_nonnegative(out@.len() as int, 1_000_000);
                vstd::arithmetic::div_mod::lemma_div_pos_is_pos(
                    out@.len() as int * 1_000_000,
                    sample_rate as int,
                );
                vstd::arithmetic::div_mod::lemma_div_nonincreasing(
                    out@.len() as int * 1_000_000,
                    sample_rate as int,
                );
            }
            let delta = ((out.len() as u64) * 1_000_000u64) / (sample_rate as u64);
            let advanced = timeline.advance_position(delta);
            if advanced {
                match timeline.get_current_segment() {
                    Some(seg) => {
                        proof {
                            assert(timeline.segments@ == old(timeline).segments@);
                            crate::timeline::lemma_first_containing_props(
                                timeline.segments@,
                                timeline.current_position as int,
                                0,
                            );
                            match crate::timeline::first_containing(
                                timeline.segments@,
                                timeline.current_position as int,
                                0,
                            ) {
                                Some(kk) => {
                                    assert(1 <= old(timeline).segments@[kk].bpm <= sample_rate
                                        * 15_000);
                                    vstd::arithmetic::mul::lemma_mul_nonnegative(
                                        sample_rate as int,
                                        15_000,
                                    );
                                    vstd::arithmetic::div_mod::lemma_div_nonincreasing(
                                        sample_rate as int * 15_000,
                                        seg.bpm as int,
                                    );
                                    vstd::arithmetic::div_mod::lemma_div_is_ordered(
                                        seg.bpm as int,
                                        sample_rate as int * 15_000,
                                        seg.bpm as int,
                                    );
                                    vstd::arithmetic::div_mod::lemma_div_by_self(seg.bpm as int);
                                },
                                None => {},
                            }
                        }
                        self.state.process_patterns(out, bank, &seg.patterns, seg.bpm,
                            sample_rate);
                        rendered = true;
                    },
                    None => {},
                }
            }
        }
        if master_volume != 1000 {
            let ghost mixed = out@;
            let mut m: usize = 0;
            while m < out.len()
                invariant
                    m <= out@.len(),
                    out@.len() == mixed.len(),
                    rendered ==> forall|k: int|
                        0 <= k < mixed.len() ==> -36_000_000 <= #[trigger] mixed[k]
                            <= 36_000_000,
                    !rendered ==> forall|k: int| 0 <= k < mixed.len() ==> mixed[k] == 0,
                    forall|k: int| m <= k < mixed.len() ==> out@[k] == mixed[k],
                    forall|k: int|
                        0 <= k < m ==> out@[k] == scaled(mixed[k] as int, master_volume as int) as i32,
                decreases out@.len() - m,
            {
                let cur = out[m];
                proof {
                    assert(out@[m as int] == mixed[m as int]);
                    if !rendered {
                        assert(mixed[m as int] == 0);
                    }
                }
                let scaled_val = scale_master(cur, master_volume);
                out.set(m, scaled_val);
                m = m + 1;
            }
            proof {
                assert(out@ =~= Seq::new(
                    mixed.len(),
                    |k: int| scaled(mixed[k] as int, master_volume as int) as i32,
                ));
                if !rendered {
                    assert forall|k: int| 0 <= k < out@.len() implies out@[k] == 0 by {
                        assert(scaled(0, master_volume as int) == 0) by {
                            vstd::arithmetic::mul::lemma_mul_basics(master_volume as int);
                        }
                    }
                }
            }
        } else {
            proof {
                assert forall|k: int|
                    0 <= k < out@.len() implies out@[k] == scaled(out@[k] as int, 1000) as i32 by {
                    if out@[k] >= 0 {
                        vstd::arithmetic::div_mod::lemma_div_by_multiple(out@[k] as int, 1000);
                    } else {
                        vstd::arithmetic::div_mod::lemma_div_by_multiple(-(out@[k] as int), 1000);
                    }
                }
                assert(out@ =~= Seq::new(
                    out@.len(),
                    |k: int| scaled(out@[k] as int, 1000) as i32,
                ));
            }
        }
    }
}

/// Applies the master volume (in thousandths, at most double) to one
/// rendered sample, exactly as `scaled` says.
fn scale_master(s: i32, volume: u32) -> (r: i32)
    requires
        -36_000_000 <= s <= 36_000_000,
        volume <= 2000,
    ensures
        r == scaled(s as int, volume as int),
        -72_000_000 <= r <= 72_000_000,
{
    proof {
        vstd::arithmetic::mul::lemma_mul_upper_bound(
            if s >= 0 {
                s as int
            } else {
                -(s as int)
            },
            36_000_000,
            volume as int,
            2000,
        );
        vstd::arithmetic::mul::lemma_mul_nonnegative(
            if s >= 0 {
                s as int
            } else {
                -(s as int)
            },
            volume as int,
        );
        vstd::arithmetic::div_mod::lemma_div_is_ordered(
            (if s >= 0 {
                s as int
            } else {
                -(s as int)
            }) * volume as int,
            72_000_000_000,
            1000,
        );
        vstd::arithmetic::div_mod::lemma_div_pos_is_pos(
            (if s >= 0 {
                s as int
            } else {
                -(s as int)
            }) * volume as int,
            1000,
        );
    }
    if s >= 0 {
        let m = (s as u64) * (volume as u64) / 1000;
        m as i32
    } else {
        let neg = -(s as i64);
        let m = ((neg as u64) * (volume as u64)) / 1000;
        let mi = m as i32;
        -mi
    }
}

} // verus!
