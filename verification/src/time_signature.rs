//! Musical meter as a value type: beats per measure and the note value of one
//! beat, with the integer beat/step arithmetic the sequencer and its labels
//! are built on. A pattern of `loop_length` steps spans one measure repeated,
//! so a beat covers `loop_length / numerator` steps (as an exact ratio).

use vstd::prelude::*;
use crate::text::{dec_str, append_dec, dec_to_string};

verus! {

/// A time signature: `numerator` beats per measure, each beat a
/// `denominator`-th note. Valid when the numerator is 1..=32 and the
/// denominator is a power of two no larger than 32.
#[derive(Debug, Clone, Copy, PartialEq, Eq, Structural)]
pub struct TimeSignature {
    pub numerator: u8,
    pub denominator: u8,
}

/// Rejection of an out-of-range time signature at construction.
#[derive(Debug, Clone, Copy, PartialEq, Eq, Structural)]
pub enum InvalidTimeSignature {
    /// The numerator was 0 or above 32.
    Numerator(u8),
    /// The denominator was not a power of two in 1..=32.
    Denominator(u8),
}

impl TimeSignature {
    /// Both fields in the ranges a time signature allows.
    pub open spec fn valid(self) -> bool {
        &&& 1 <= self.numerator <= 32
        &&& (self.denominator == 1 || self.denominator == 2 || self.denominator == 4
            || self.denominator == 8 || self.denominator == 16 || self.denominator == 32)
    }

    /// Builds a time signature, rejecting a numerator outside 1..=32 and a
    /// denominator that is not a power of two in 1..=32 (numerator checked
    /// first).
    pub fn new(numerator: u8, denominator: u8) -> (r: Result<Self, InvalidTimeSignature>)
        ensures
            (TimeSignature { numerator, denominator }).valid()
                ==> r == Ok::<Self, InvalidTimeSignature>(TimeSignature { numerator, denominator }),
            !(1 <= numerator <= 32)
                ==> r == Err::<Self, InvalidTimeSignature>(InvalidTimeSignature::Numerator(numerator)),
            (1 <= numerator <= 32 && !(TimeSignature { numerator, denominator }).valid())
                ==> r == Err::<Self, InvalidTimeSignature>(InvalidTimeSignature::Denominator(denominator)),
    {
        if numerator == 0 || numerator > 32 {
            return Err(InvalidTimeSignature::Numerator(numerator));
        }
        if !(denominator == 1 || denominator == 2 || denominator == 4 || denominator == 8
            || denominator == 16 || denominator == 32) {
            return Err(InvalidTimeSignature::Denominator(denominator));
        }
        Ok(TimeSignature { numerator, denominator })
    }

    /// Common time: 4/4.
    pub fn four_four() -> (r: Self)
        ensures
            r == (TimeSignature { numerator: 4u8, denominator: 4u8 }),
    {
        TimeSignature { numerator: 4, denominator: 4 }
    }

    /// Waltz time: 3/4.
    pub fn three_four() -> (r: Self)
        ensures
            r == (TimeSignature { numerator: 3u8, denominator: 4u8 }),
    {
        TimeSignature { numerator: 3, denominator: 4 }
    }

    /// Quintuple time: 5/4.
    pub fn five_four() -> (r: Self)
        ensures
            r == (TimeSignature { numerator: 5u8, denominator: 4u8 }),
    {
        TimeSignature { numerator: 5, denominator: 4 }
    }

    /// Compound duple time: 6/8.
    pub fn six_eight() -> (r: Self)
        ensures
            r == (TimeSignature { numerator: 6u8, denominator: 8u8 }),
    {
        TimeSignature { numerator: 6, denominator: 8 }
    }

    /// Irregular time: 7/8.
    pub fn seven_eight() -> (r: Self)
        ensures
            r == (TimeSignature { numerator: 7u8, denominator: 8u8 }),
    {
        TimeSignature { numerator: 7, denominator: 8 }
    }

    /// Compound triple time: 9/8.
    pub fn nine_eight() -> (r: Self)
        ensures
            r == (TimeSignature { numerator: 9u8, denominator: 8u8 }),
    {
        TimeSignature { numerator: 9, denominator: 8 }
    }

    /// Compound quadruple time: 12/8.
    pub fn twelve_eight() -> (r: Self)
        ensures
            r == (TimeSignature { numerator: 12u8, denominator: 8u8 }),
    {
        TimeSignature { numerator: 12, denominator: 8 }
    }

    /// The loop length that gives each beat `base_subdivision` steps.
    pub fn optimal_loop_length(&self, base_subdivision: u8) -> (r: usize)
        ensures
            r == self.numerator * base_subdivision,
    {
        proof {
            vstd::arithmetic::mul::lemma_mul_upper_bound(
                self.numerator as int,
                255,
                base_subdivision as int,
                255,
            );
        }
        (self.numerator as usize) * (base_subdivision as usize)
    }

    /// The zero-based beat a step of the loop falls in: with `loop_length`
    /// steps to `numerator` beats, step `s` lies in beat
    /// `floor(s * numerator / loop_length)`, wrapped to the measure.
    pub open spec fn spec_beat_for_step(self, step: int, loop_length: int) -> int {
        ((step * self.numerator) / loop_length) % (self.numerator as int)
    }

    /// See `spec_beat_for_step`.
    pub fn beat_for_step(&self, step: usize, loop_length: usize) -> (r: usize)
        requires
            self.valid(),
            loop_length >= 1,
        ensures
            r == self.spec_beat_for_step(step as int, loop_length as int),
    {
        proof {
            lemma_step_times_num_fits(step as int, self.numerator as int);
        }
        let wide = (step as u128) * (self.numerator as u128);
        let beat = (wide / (loop_length as u128)) % (self.numerator as u128);
        beat as usize
    }

    /// Whether a step starts a beat: step `s` is a beat boundary when
    /// `s * numerator` is an exact multiple of `loop_length`, that is, when
    /// `s` is a whole multiple of the `loop_length / numerator` steps a beat
    /// spans.
    pub open spec fn spec_is_beat_boundary(self, step: int, loop_length: int) -> bool {
        (step * self.numerator) % loop_length == 0
    }

    /// See `spec_is_beat_boundary`.
    pub fn is_beat_boundary(&self, step: usize, loop_length: usize) -> (r: bool)
        requires
            self.valid(),
            loop_length >= 1,
        ensures
            r == self.spec_is_beat_boundary(step as int, loop_length as int),
    {
        proof {
            lemma_step_times_num_fits(step as int, self.numerator as int);
        }
        let wide = (step as u128) * (self.numerator as u128);
        wide % (loop_length as u128) == 0
    }

    /// Whether a step is the downbeat: a beat boundary lying in beat 0.
    pub fn is_downbeat(&self, step: usize, loop_length: usize) -> (r: bool)
        requires
            self.valid(),
            loop_length >= 1,
        ensures
            r == (self.spec_is_beat_boundary(step as int, loop_length as int)
                && self.spec_beat_for_step(step as int, loop_length as int) == 0),
    {
        self.is_beat_boundary(step, loop_length) && self.beat_for_step(step, loop_length) == 0
    }

    /// The signature written as `numerator/denominator`.
    pub fn display_string(&self) -> (r: String)
        ensures
            r@ == dec_str(self.numerator as int) + seq!['/'] + dec_str(self.denominator as int),
    {
        let mut s = dec_to_string(self.numerator as u128);
        let ghost first = s@;
        s.push('/');
        proof {
            assert(s@ =~= first + seq!['/']);
        }
        append_dec(&mut s, self.denominator as u128);
        s
    }

    /// The one-based beat a step falls in, not wrapped to the measure.
    pub open spec fn spec_beat_number(self, step: int, loop_length: int) -> int {
        (step * self.numerator) / loop_length + 1
    }

    /// The one-based position of a step within its beat.
    pub open spec fn spec_subdivision(self, step: int, loop_length: int) -> int {
        step - (((step * self.numerator) / loop_length * loop_length + self.numerator - 1)
            / (self.numerator as int)) + 1
    }

    /// The musical label of a step: `beat.subdivision` when a beat spans at
    /// least four steps, the bare beat number otherwise.
    pub open spec fn spec_step_label(self, step: int, loop_length: int) -> Seq<char> {
        if loop_length >= 4 * self.numerator {
            dec_str(self.spec_beat_number(step, loop_length)) + seq!['.']
                + dec_str(self.spec_subdivision(step, loop_length))
        } else {
            dec_str(self.spec_beat_number(step, loop_length))
        }
    }

    /// See `spec_step_label`.
    pub fn step_label(&self, step: usize, loop_length: usize) -> (r: String)
        requires
            self.valid(),
            loop_length >= 1,
        ensures
            r@ == self.spec_step_label(step as int, loop_length as int),
    {
        proof {
            lemma_step_times_num_fits(step as int, self.numerator as int);
        }
        let num = self.numerator as u128;
        let wide = (step as u128) * num;
        let beat0 = wide / (loop_length as u128);
        proof {
            lemma_beat_number_bound(step as int, self.numerator as int, loop_length as int);
            lemma_div_mul_le(step as int * self.numerator as int, loop_length as int);
        }
        let beat_number = beat0 + 1;
        if loop_length >= 4 * (self.numerator as usize) {
            let start_of_beat = (beat0 * (loop_length as u128) + num - 1) / num;
            proof {
                lemma_subdivision_bounds(step as int, self.numerator as int, loop_length as int);
            }
            let subdivision = (step as u128) - start_of_beat + 1;
            let mut s = dec_to_string(beat_number);
            let ghost first = s@;
            s.push('.');
            proof {
                assert(s@ =~= first + seq!['.']);
            }
            append_dec(&mut s, subdivision);
            s
        } else {
            dec_to_string(beat_number)
        }
    }
}

/// The beat index of a step is no larger than the step count times the
/// numerator, so the one-based beat number fits comfortably in a `u64`.
proof fn lemma_beat_number_bound(step: int, numerator: int, loop_length: int)
    requires
        0 <= step,
        1 <= numerator <= 32,
        1 <= loop_length,
    ensures
        0 <= (step * numerator) / loop_length <= step * numerator,
        step * numerator <= step * 32,
{
    vstd::arithmetic::div_mod::lemma_div_nonincreasing(step * numerator, loop_length);
    vstd::arithmetic::div_mod::lemma_div_pos_is_pos(step * numerator, loop_length);
    vstd::arithmetic::mul::lemma_mul_inequality(numerator, 32, step);
    vstd::arithmetic::mul::lemma_mul_nonnegative(step, numerator);
}

/// The first step of the beat a step falls in lies no later than the step
/// itself, so the one-based subdivision is at least 1 and at most a step
/// count plus one.
proof fn lemma_subdivision_bounds(step: int, numerator: int, loop_length: int)
    requires
        0 <= step,
        1 <= numerator <= 32,
        1 <= loop_length,
    ensures
        0 <= ((step * numerator) / loop_length * loop_length + numerator - 1) / numerator <= step,
{
    let b = (step * numerator) / loop_length;
    vstd::arithmetic::mul::lemma_mul_nonnegative(step, numerator);
    vstd::arithmetic::div_mod::lemma_div_pos_is_pos(step * numerator, loop_length);
    lemma_div_mul_le(step * numerator, loop_length);
    vstd::arithmetic::mul::lemma_mul_nonnegative(b, loop_length);
    assert(0 <= b * loop_length + numerator - 1);
    vstd::arithmetic::div_mod::lemma_div_pos_is_pos(b * loop_length + numerator - 1, numerator);
    assert(b * loop_length + numerator - 1 <= step * numerator + numerator - 1);
    vstd::arithmetic::div_mod::lemma_div_is_ordered(
        b * loop_length + numerator - 1,
        step * numerator + numerator - 1,
        numerator,
    );
    assert((numerator - 1) + step * numerator == numerator - 1 + step * numerator);
    vstd::arithmetic::div_mod::lemma_hoist_over_denominator(
        numerator - 1,
        step,
        numerator as nat,
    );
    assert((numerator - 1) / numerator + step == (numerator - 1 + step * numerator) / numerator);
    vstd::arithmetic::div_mod::lemma_basic_div(numerator - 1, numerator);
    assert((step * numerator + numerator - 1) / numerator <= step);
}

/// A step count times a numerator stays within the range a `u128` holds.
proof fn lemma_step_times_num_fits(step: int, numerator: int)
    requires
        0 <= step <= usize::MAX,
        0 <= numerator <= 32,
    ensures
        0 <= step * numerator <= usize::MAX as int * 32,
{
    vstd::arithmetic::mul::lemma_mul_upper_bound(step, usize::MAX as int, numerator, 32);
    vstd::arithmetic::mul::lemma_mul_nonnegative(step, numerator);
}

/// A quotient multiplied back by its divisor does not exceed the dividend.
proof fn lemma_div_mul_le(x: int, d: int)
    requires
        0 <= x,
        0 < d,
    ensures
        (x / d) * d <= x,
{
    vstd::arithmetic::div_mod::lemma_fundamental_div_mod(x, d);
    vstd::arithmetic::div_mod::lemma_mod_bound(x, d);
    assert((x / d) * d == d * (x / d)) by (nonlinear_arith);
}

} // verus!
