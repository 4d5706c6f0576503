//! Biquad IIR filters.
//!
//! A second-order section is five normalized coefficients plus state; here
//! both classic state realizations — direct form 1 and transposed direct
//! form 2 — run in two's-complement fixed point. Coefficients carry
//! `COEFF_ONE` (2^30) as unity; samples are plain `i64` values whose scale
//! the caller chooses. Each processed sample is the textbook weighted sum,
//! scaled back down with truncation toward zero and saturated to `i64`.
//! The transposed form keeps its two accumulators at full width, so the two
//! realizations produce bit-identical output from corresponding states.
//!
//! Deriving coefficient values from analog prototypes (the tangent
//! pre-warping formulas) is floating-point work done by the caller; the
//! parameter clamping that precedes it is exact and lives here.

use vstd::prelude::*;

verus! {

/// Unity in the fixed-point coefficient format (2^30).
pub const COEFF_ONE: i64 = 0x40000000;

/// Largest accepted coefficient magnitude (2^40): headroom of a thousand
/// over unity, far beyond any stable section.
pub const COEFF_LIMIT: i64 = 0x10000000000;

/// Largest magnitude of one coefficient-sample product (2^103).
pub const PROD_LIMIT: i128 = 0x80000000000000000000000000;

/// Bound kept on the second transposed-form accumulator (2^104).
pub const S1_LIMIT: i128 = 0x100000000000000000000000000;

/// Bound kept on the first transposed-form accumulator (2^105).
pub const S0_LIMIT: i128 = 0x200000000000000000000000000;

/// Largest accumulator magnitude handed to the down-scaling step (2^106).
pub const ACC_LIMIT: i128 = 0x400000000000000000000000000;

/// Quotient of `a / d` rounded toward zero, for a positive divisor.
pub open spec fn tz_div(a: int, d: int) -> int {
    if a >= 0 {
        a / d
    } else {
        -((-a) / d)
    }
}

/// `v` saturated to the `i64` range.
pub open spec fn sat_i64(v: int) -> int {
    if v > i64::MAX {
        i64::MAX as int
    } else if v < i64::MIN {
        i64::MIN as int
    } else {
        v
    }
}

/// Filter parameters.
///
/// Frequencies are in Hz, Q values in thousandths (`700` is a Q of 0.7),
/// gains in thousandths of a decibel (`20000` is +20 dB).
#[derive(Debug, Default, Clone, Copy, PartialEq, Eq, Structural)]
pub enum FilterParams {
    /// Bypass mode.
    #[default]
    Bypass,
    /// Lowpass mode.
    Lowpass { freq: u32, q: u32 },
    /// Highpass mode.
    Highpass { freq: u32, q: u32 },
    /// Bandpass mode.
    Bandpass { freq: u32, q: u32 },
    /// Notch mode.
    Notch { freq: u32, q: u32 },
    /// Peak mode.
    Peak { freq: u32, q: u32, gain: i32 },
    /// Low shelf mode.
    LowShelf { freq: u32, gain: i32 },
    /// High shelf mode.
    HighShelf { freq: u32, gain: i32 },
    /// Allpass mode.
    Allpass { freq: u32, q: u32 },
    /// One-pole lowpass mode.
    Lowpass1p { freq: u32 },
    /// First order lowpass mode.
    Lowpass1p1z { freq: u32 },
    /// First order highpass mode.
    Highpass1p1z { freq: u32 },
    /// First order low shelf mode.
    LowShelf1st { freq: u32, gain: i32 },
    /// First order high shelf mode.
    HighShelf1st { freq: u32, gain: i32 },
}

/// `v` clamped into `[lo, hi]`.
pub open spec fn clamped(v: int, lo: int, hi: int) -> int {
    if v < lo {
        lo
    } else if v > hi {
        hi
    } else {
        v
    }
}

impl FilterParams {
    /// The parameters with every field clamped into its range: frequencies
    /// into `fr`, Q values into `qr`, gains into `gr`. Variants keep their
    /// kind; fields a variant does not carry are untouched.
    pub open spec fn spec_clamp(self, fr: (u32, u32), qr: (u32, u32), gr: (i32, i32)) -> FilterParams {
        match self {
            FilterParams::Bypass => FilterParams::Bypass,
            FilterParams::Lowpass { freq, q } => FilterParams::Lowpass {
                freq: clamped(freq as int, fr.0 as int, fr.1 as int) as u32,
                q: clamped(q as int, qr.0 as int, qr.1 as int) as u32,
            },
            FilterParams::Highpass { freq, q } => FilterParams::Highpass {
                freq: clamped(freq as int, fr.0 as int, fr.1 as int) as u32,
                q: clamped(q as int, qr.0 as int, qr.1 as int) as u32,
            },
            FilterParams::Bandpass { freq, q } => FilterParams::Bandpass {
                freq: clamped(freq as int, fr.0 as int, fr.1 as int) as u32,
                q: clamped(q as int, qr.0 as int, qr.1 as int) as u32,
            },
            FilterParams::Notch { freq, q } => FilterParams::Notch {
                freq: clamped(freq as int, fr.0 as int, fr.1 as int) as u32,
                q: clamped(q as int, qr.0 as int, qr.1 as int) as u32,
            },
            FilterParams::Peak { freq, q, gain } => FilterParams::Peak {
                freq: clamped(freq as int, fr.0 as int, fr.1 as int) as u32,
                q: clamped(q as int, qr.0 as int, qr.1 as int) as u32,
                gain: clamped(gain as int, gr.0 as int, gr.1 as int) as i32,
            },
            FilterParams::LowShelf { freq, gain } => FilterParams::LowShelf {
                freq: clamped(freq as int, fr.0 as int, fr.1 as int) as u32,
                gain: clamped(gain as int, gr.0 as int, gr.1 as int) as i32,
            },
            FilterParams::HighShelf { freq, gain } => FilterParams::HighShelf {
                freq: clamped(freq as int, fr.0 as int, fr.1 as int) as u32,
                gain: clamped(gain as int, gr.0 as int, gr.1 as int) as i32,
            },
            FilterParams::Allpass { freq, q } => FilterParams::Allpass {
                freq: clamped(freq as int, fr.0 as int, fr.1 as int) as u32,
                q: clamped(q as int, qr.0 as int, qr.1 as int) as u32,
            },
            FilterParams::Lowpass1p { freq } => FilterParams::Lowpass1p {
                freq: clamped(freq as int, fr.0 as int, fr.1 as int) as u32,
            },
            FilterParams::Lowpass1p1z { freq } => FilterParams::Lowpass1p1z {
                freq: clamped(freq as int, fr.0 as int, fr.1 as int) as u32,
            },
            FilterParams::Highpass1p1z { freq } => FilterParams::Highpass1p1z {
                freq: clamped(freq as int, fr.0 as int, fr.1 as int) as u32,
            },
            FilterParams::LowShelf1st { freq, gain } => FilterParams::LowShelf1st {
                freq: clamped(freq as int, fr.0 as int, fr.1 as int) as u32,
                gain: clamped(gain as int, gr.0 as int, gr.1 as int) as i32,
            },
            FilterParams::HighShelf1st { freq, gain } => FilterParams::HighShelf1st {
                freq: clamped(freq as int, fr.0 as int, fr.1 as int) as u32,
                gain: clamped(gain as int, gr.0 as int, gr.1 as int) as i32,
            },
        }
    }

    /// Clamps all parameters to the given ranges: frequencies into
    /// `freq_range`, Q values into `q_range`, gains into `gain_range`.
    /// Clamping happens once, before coefficient derivation, which itself
    /// checks nothing.
    pub fn clamp(&mut self, freq_range: (u32, u32), q_range: (u32, u32), gain_range: (i32, i32))
        requires
            freq_range.0 <= freq_range.1,
            q_range.0 <= q_range.1,
            gain_range.0 <= gain_range.1,
        ensures
            *final(self) == old(self).spec_clamp(freq_range, q_range, gain_range),
    {
        *self = match *self {
            FilterParams::Bypass => FilterParams::Bypass,
            FilterParams::Lowpass { freq, q } => FilterParams::Lowpass {
                freq: clamp_u32(freq, freq_range.0, freq_range.1),
                q: clamp_u32(q, q_range.0, q_range.1),
            },
            FilterParams::Highpass { freq, q } => FilterParams::Highpass {
                freq: clamp_u32(freq, freq_range.0, freq_range.1),
                q: clamp_u32(q, q_range.0, q_range.1),
            },
            FilterParams::Bandpass { freq, q } => FilterParams::Bandpass {
                freq: clamp_u32(freq, freq_range.0, freq_range.1),
                q: clamp_u32(q, q_range.0, q_range.1),
            },
            FilterParams::Notch { freq, q } => FilterParams::Notch {
                freq: clamp_u32(freq, freq_range.0, freq_range.1),
                q: clamp_u32(q, q_range.0, q_range.1),
            },
            FilterParams::Peak { freq, q, gain } => FilterParams::Peak {
                freq: clamp_u32(freq, freq_range.0, freq_range.1),
                q: clamp_u32(q, q_range.0, q_range.1),
                gain: clamp_i32(gain, gain_range.0, gain_range.1),
            },
            FilterParams::LowShelf { freq, gain } => FilterParams::LowShelf {
                freq: clamp_u32(freq, freq_range.0, freq_range.1),
                gain: clamp_i32(gain, gain_range.0, gain_range.1),
            },
            FilterParams::HighShelf { freq, gain } => FilterParams::HighShelf {
                freq: clamp_u32(freq, freq_range.0, freq_range.1),
                gain: clamp_i32(gain, gain_range.0, gain_range.1),
            },
            FilterParams::Allpass { freq, q } => FilterParams::Allpass {
                freq: clamp_u32(freq, freq_range.0, freq_range.1),
                q: clamp_u32(q, q_range.0, q_range.1),
            },
            FilterParams::Lowpass1p { freq } => FilterParams::Lowpass1p {
                freq: clamp_u32(freq, freq_range.0, freq_range.1),
            },
            FilterParams::Lowpass1p1z { freq } => FilterParams::Lowpass1p1z {
                freq: clamp_u32(freq, freq_range.0, freq_range.1),
            },
            FilterParams::Highpass1p1z { freq } => FilterParams::Highpass1p1z {
                freq: clamp_u32(freq, freq_range.0, freq_range.1),
            },
            FilterParams::LowShelf1st { freq, gain } => FilterParams::LowShelf1st {
                freq: clamp_u32(freq, freq_range.0, freq_range.1),
                gain: clamp_i32(gain, gain_range.0, gain_range.1),
            },
            FilterParams::HighShelf1st { freq, gain } => FilterParams::HighShelf1st {
                freq: clamp_u32(freq, freq_range.0, freq_range.1),
                gain: clamp_i32(gain, gain_range.0, gain_range.1),
            },
        };
    }
}

/// `v` clamped into `[lo, hi]`.
fn clamp_u32(v: u32, lo: u32, hi: u32) -> (r: u32)
    requires
        lo <= hi,
    ensures
        r == clamped(v as int, lo as int, hi as int),
{
    if v < lo {
        lo
    } else if v > hi {
        hi
    } else {
        v
    }
}

/// `v` clamped into `[lo, hi]`.
fn clamp_i32(v: i32, lo: i32, hi: i32) -> (r: i32)
    requires
        lo <= hi,
    ensures
        r == clamped(v as int, lo as int, hi as int),
{
    if v < lo {
        lo
    } else if v > hi {
        hi
    } else {
        v
    }
}

/// Normalized filter coefficients.
///
/// Values are fixed point with `COEFF_ONE` as 1.0, already normalized by
/// the leading denominator coefficient.
#[derive(Debug, Clone, Copy, PartialEq, Eq, Structural)]
pub struct BiquadFilterCoefficients {
    /// Coefficient a0 / b0.
    pub a0: i64,

    /// Coefficient a1 / b0.
    pub a1: i64,

    /// Coefficient a2 / b0.
    pub a2: i64,

    /// Coefficient b1 / b0.
    pub b1: i64,

    /// Coefficient b2 / b0.
    pub b2: i64,
}

impl BiquadFilterCoefficients {
    /// All five coefficients are within the accepted magnitude.
    pub open spec fn wf(self) -> bool {
        &&& -COEFF_LIMIT <= self.a0 <= COEFF_LIMIT
        &&& -COEFF_LIMIT <= self.a1 <= COEFF_LIMIT
        &&& -COEFF_LIMIT <= self.a2 <= COEFF_LIMIT
        &&& -COEFF_LIMIT <= self.b1 <= COEFF_LIMIT
        &&& -COEFF_LIMIT <= self.b2 <= COEFF_LIMIT
    }

    /// The bypass section: unity feedforward, no memory terms.
    pub open spec fn is_bypass(self) -> bool {
        self == (BiquadFilterCoefficients { a0: COEFF_ONE, a1: 0, a2: 0, b1: 0, b2: 0 })
    }
}

impl Default for BiquadFilterCoefficients {
    /// The bypass section.
    fn default() -> (r: BiquadFilterCoefficients)
        ensures
            r.is_bypass(),
            r.wf(),
    {
        BiquadFilterCoefficients { a0: COEFF_ONE, a1: 0, a2: 0, b1: 0, b2: 0 }
    }
}

/// Biquad IIR filter in direct form 1: the last two raw input samples and
/// the last two emitted output samples are the state.
#[derive(Debug, Clone, Copy)]
pub struct BiquadFilter1 {
    /// Coefficients.
    pub coeffs: BiquadFilterCoefficients,

    /// Previous input sample.
    pub x1: i64,

    /// Input sample before the previous one.
    pub x2: i64,

    /// Previous output sample.
    pub y1: i64,

    /// Output sample before the previous one.
    pub y2: i64,
}

impl BiquadFilter1 {
    /// The coefficients are in range.
    pub open spec fn wf(self) -> bool {
        self.coeffs.wf()
    }

    /// The weighted sum this state produces for input `x`, before scaling.
    pub open spec fn acc(self, x: int) -> int {
        self.coeffs.a0 * x + self.coeffs.a1 * self.x1 + self.coeffs.a2 * self.x2
            - self.coeffs.b1 * self.y1 - self.coeffs.b2 * self.y2
    }

    /// The output sample for input `x`: the weighted sum scaled back down
    /// and saturated.
    pub open spec fn step_out(self, x: i64) -> int {
        sat_i64(tz_div(self.acc(x as int), COEFF_ONE as int))
    }

    /// The state after processing one sample.
    pub open spec fn stepped(self, x: i64) -> BiquadFilter1 {
        BiquadFilter1 {
            coeffs: self.coeffs,
            x1: x,
            x2: self.x1,
            y1: self.step_out(x) as i64,
            y2: self.y1,
        }
    }

    /// The state after processing a whole block.
    pub open spec fn run(self, xs: Seq<i64>) -> BiquadFilter1
        decreases xs.len(),
    {
        if xs.len() == 0 {
            self
        } else {
            self.stepped(xs[0]).run(xs.drop_first())
        }
    }

    /// The output samples of a whole block.
    pub open spec fn outputs(self, xs: Seq<i64>) -> Seq<i64>
        decreases xs.len(),
    {
        if xs.len() == 0 {
            Seq::empty()
        } else {
            seq![(self.step_out(xs[0]) as i64)] + self.stepped(xs[0]).outputs(xs.drop_first())
        }
    }

    /// Returns a new instance in bypass mode with cleared state.
    pub fn new() -> (r: BiquadFilter1)
        ensures
            r.wf(),
            r.coeffs.is_bypass(),
            r.x1 == 0 && r.x2 == 0 && r.y1 == 0 && r.y2 == 0,
    {
        BiquadFilter1 {
            coeffs: Default::default(),
            x1: 0,
            x2: 0,
            y1: 0,
            y2: 0,
        }
    }

    /// Resets the filter: coefficients to bypass, state cleared.
    pub fn reset(&mut self)
        ensures
            final(self).wf(),
            final(self).coeffs.is_bypass(),
            final(self).x1 == 0 && final(self).x2 == 0 && final(self).y1 == 0 && final(self).y2
                == 0,
    {
        *self = BiquadFilter1::new();
    }

    /// Sets the coefficients.
    pub fn set_coefficients(&mut self, coeffs: BiquadFilterCoefficients)
        requires
            coeffs.wf(),
        ensures
            final(self).wf(),
            final(self).coeffs == coeffs,
            final(self).x1 == old(self).x1 && final(self).x2 == old(self).x2,
            final(self).y1 == old(self).y1 && final(self).y2 == old(self).y2,
    {
        self.coeffs = coeffs;
    }

    /// Processes a single sample.
    pub fn process_sample(&mut self, sample: i64) -> (r: i64)
        requires
            old(self).wf(),
        ensures
            final(self).wf(),
            r == old(self).step_out(sample),
            *final(self) == old(self).stepped(sample),
    {
        let c = self.coeffs;
        proof {
            lemma_coeff_sample_product(c.a0 as int, sample as int);
            lemma_coeff_sample_product(c.a1 as int, self.x1 as int);
            lemma_coeff_sample_product(c.a2 as int, self.x2 as int);
            lemma_coeff_sample_product(c.b1 as int, self.y1 as int);
            lemma_coeff_sample_product(c.b2 as int, self.y2 as int);
        }
        let acc: i128 = (c.a0 as i128) * (sample as i128) + (c.a1 as i128) * (self.x1 as i128) + (
        c.a2 as i128) * (self.x2 as i128) - (c.b1 as i128) * (self.y1 as i128) - (c.b2 as i128) * (
        self.y2 as i128);
        let y = saturate(scale_down(acc));
        self.x2 = self.x1;
        self.x1 = sample;
        self.y2 = self.y1;
        self.y1 = y;
        y
    }

    /// Processes a block of samples in place.
    pub fn process_block(&mut self, samples: &mut Vec<i64>)
        requires
            old(self).wf(),
        ensures
            final(self).wf(),
            *final(self) == old(self).run(old(samples)@),
            final(samples)@ == old(self).outputs(old(samples)@),
    {
        let ghost g = *self;
        let len = samples.len();
        let mut i: usize = 0;
        while i < len
            invariant
                i <= len,
                samples@.len() == len,
                old(samples)@.len() == len,
                g == *old(self),
                g.wf(),
                self.wf(),
                *self == g.run(old(samples)@.subrange(0, i as int)),
                samples@ == g.outputs(old(samples)@.subrange(0, i as int)) + old(
                    samples,
                )@.subrange(i as int, len as int),
            decreases len - i,
        {
            let ghost pref = old(samples)@.subrange(0, i as int);
            let x = samples[i];
            assert(x == old(samples)@[i as int]);
            let y = self.process_sample(x);
            samples.set(i, y);
            proof {
                lemma_run1_snoc(g, pref, x);
                assert(old(samples)@.subrange(0, i + 1) =~= pref.push(x));
                assert(samples@ =~= g.outputs(old(samples)@.subrange(0, i + 1)) + old(
                    samples,
                )@.subrange(i + 1, len as int));
            }
            i = i + 1;
        }
        proof {
            assert(old(samples)@.subrange(0, len as int) =~= old(samples)@);
            assert(samples@ =~= g.outputs(old(samples)@));
        }
    }
}

/// Biquad IIR filter in transposed direct form 2: two full-width
/// accumulators are the state, so no intermediate result is rounded before
/// it feeds the next sample.
#[derive(Debug, Clone, Copy)]
pub struct BiquadFilter2 {
    /// Coefficients.
    pub coeffs: BiquadFilterCoefficients,

    /// First accumulator.
    pub s0: i128,

    /// Second accumulator.
    pub s1: i128,
}

impl BiquadFilter2 {
    /// The coefficients are in range and the accumulators are within the
    /// bounds every processing step re-establishes.
    pub open spec fn wf(self) -> bool {
        &&& self.coeffs.wf()
        &&& -S0_LIMIT <= self.s0 <= S0_LIMIT
        &&& -S1_LIMIT <= self.s1 <= S1_LIMIT
    }

    /// The weighted sum this state produces for input `x`, before scaling.
    pub open spec fn acc(self, x: int) -> int {
        self.s0 + self.coeffs.a0 * x
    }

    /// The output sample for input `x`: the accumulated sum scaled back
    /// down and saturated.
    pub open spec fn step_out(self, x: i64) -> int {
        sat_i64(tz_div(self.acc(x as int), COEFF_ONE as int))
    }

    /// The state after processing one sample: both accumulators are rebuilt
    /// from the new input and the just-produced output.
    pub open spec fn stepped(self, x: i64) -> BiquadFilter2 {
        let y = self.step_out(x);
        BiquadFilter2 {
            coeffs: self.coeffs,
            s0: (self.s1 + self.coeffs.a1 * x - self.coeffs.b1 * y) as i128,
            s1: (self.coeffs.a2 * x - self.coeffs.b2 * y) as i128,
        }
    }

    /// The state after processing a whole block.
    pub open spec fn run(self, xs: Seq<i64>) -> BiquadFilter2
        decreases xs.len(),
    {
        if xs.len() == 0 {
            self
        } else {
            self.stepped(xs[0]).run(xs.drop_first())
        }
    }

    /// The output samples of a whole block.
    pub open spec fn outputs(self, xs: Seq<i64>) -> Seq<i64>
        decreases xs.len(),
    {
        if xs.len() == 0 {
            Seq::empty()
        } else {
            seq![(self.step_out(xs[0]) as i64)] + self.stepped(xs[0]).outputs(xs.drop_first())
        }
    }

    /// This transposed-form state carries the same processing history as
    /// the given direct-form state: the first accumulator holds exactly the
    /// memory terms of the direct form's next weighted sum, the second the
    /// part that survives one more sample.
    pub open spec fn corresponds(self, f: BiquadFilter1) -> bool {
        &&& self.coeffs == f.coeffs
        &&& self.s0 == f.coeffs.a1 * f.x1 + f.coeffs.a2 * f.x2 - f.coeffs.b1 * f.y1
            - f.coeffs.b2 * f.y2
        &&& self.s1 == f.coeffs.a2 * f.x1 - f.coeffs.b2 * f.y1
    }

    /// Returns a new instance in bypass mode with cleared state.
    pub fn new() -> (r: BiquadFilter2)
        ensures
            r.wf(),
            r.coeffs.is_bypass(),
            r.s0 == 0 && r.s1 == 0,
    {
        BiquadFilter2 { coeffs: Default::default(), s0: 0, s1: 0 }
    }

    /// Resets the filter: coefficients to bypass, state cleared.
    pub fn reset(&mut self)
        ensures
            final(self).wf(),
            final(self).coeffs.is_bypass(),
            final(self).s0 == 0 && final(self).s1 == 0,
    {
        *self = BiquadFilter2::new();
    }

    /// Sets the coefficients.
    pub fn set_coefficients(&mut self, coeffs: BiquadFilterCoefficients)
        requires
            old(self).wf(),
            coeffs.wf(),
        ensures
            final(self).wf(),
            final(self).coeffs == coeffs,
            final(self).s0 == old(self).s0 && final(self).s1 == old(self).s1,
    {
        self.coeffs = coeffs;
    }

    /// Processes a single sample.
    pub fn process_sample(&mut self, sample: i64) -> (r: i64)
        requires
            old(self).wf(),
        ensures
            final(self).wf(),
            r == old(self).step_out(sample),
            *final(self) == old(self).stepped(sample),
    {
        let c = self.coeffs;
        proof {
            lemma_coeff_sample_product(c.a0 as int, sample as int);
        }
        let acc: i128 = self.s0 + (c.a0 as i128) * (sample as i128);
        let y = saturate(scale_down(acc));
        proof {
            lemma_coeff_sample_product(c.a1 as int, sample as int);
            lemma_coeff_sample_product(c.a2 as int, sample as int);
            lemma_coeff_sample_product(c.b1 as int, y as int);
            lemma_coeff_sample_product(c.b2 as int, y as int);
        }
        self.s0 = self.s1 + (c.a1 as i128) * (sample as i128) - (c.b1 as i128) * (y as i128);
        self.s1 = (c.a2 as i128) * (sample as i128) - (c.b2 as i128) * (y as i128);
        y
    }

    /// Processes a block of samples in place.
    pub fn process_block(&mut self, samples: &mut Vec<i64>)
        requires
            old(self).wf(),
        ensures
            final(self).wf(),
            *final(self) == old(self).run(old(samples)@),
            final(samples)@ == old(self).outputs(old(samples)@),
    {
        let ghost g = *self;
        let len = samples.len();
        let mut i: usize = 0;
        while i < len
            invariant
                i <= len,
                samples@.len() == len,
                old(samples)@.len() == len,
                g == *old(self),
                g.wf(),
                self.wf(),
                *self == g.run(old(samples)@.subrange(0, i as int)),
                samples@ == g.outputs(old(samples)@.subrange(0, i as int)) + old(
                    samples,
                )@.subrange(i as int, len as int),
            decreases len - i,
        {
            let ghost pref = old(samples)@.subrange(0, i as int);
            let x = samples[i];
            assert(x == old(samples)@[i as int]);
            let y = self.process_sample(x);
            samples.set(i, y);
            proof {
                lemma_run2_snoc(g, pref, x);
                assert(old(samples)@.subrange(0, i + 1) =~= pref.push(x));
                assert(samples@ =~= g.outputs(old(samples)@.subrange(0, i + 1)) + old(
                    samples,
                )@.subrange(i + 1, len as int));
            }
            i = i + 1;
        }
        proof {
            assert(old(samples)@.subrange(0, len as int) =~= old(samples)@);
            assert(samples@ =~= g.outputs(old(samples)@));
        }
    }
}

/// Scales an accumulated sum back down by `COEFF_ONE`, truncating toward
/// zero.
fn scale_down(acc: i128) -> (r: i128)
    requires
        -ACC_LIMIT <= acc <= ACC_LIMIT,
    ensures
        r == tz_div(acc as int, COEFF_ONE as int),
{
    if acc >= 0 {
        let q = (acc as u128) / (COEFF_ONE as u128);
        proof {
            vstd::arithmetic::div_mod::lemma_div_is_ordered(0, acc as int, COEFF_ONE as int);
            vstd::arithmetic::div_mod::lemma_div_is_ordered_by_denominator(
                acc as int,
                1,
                COEFF_ONE as int,
            );
        }
        q as i128
    } else {
        let pos = -acc;
        let q = (pos as u128) / (COEFF_ONE as u128);
        proof {
            vstd::arithmetic::div_mod::lemma_div_is_ordered(0, pos as int, COEFF_ONE as int);
            vstd::arithmetic::div_mod::lemma_div_is_ordered_by_denominator(
                pos as int,
                1,
                COEFF_ONE as int,
            );
        }
        -(q as i128)
    }
}

/// Saturates a scaled sum to the `i64` range.
fn saturate(v: i128) -> (r: i64)
    ensures
        r == sat_i64(v as int),
{
    if v > (i64::MAX as i128) {
        i64::MAX
    } else if v < (i64::MIN as i128) {
        i64::MIN
    } else {
        v as i64
    }
}

/// A coefficient in range times a sample in range stays within one product
/// bound.
proof fn lemma_coeff_sample_product(c: int, s: int)
    by (nonlinear_arith)
    requires
        -COEFF_LIMIT <= c <= COEFF_LIMIT,
        -0x8000000000000000 <= s <= 0x8000000000000000,
    ensures
        -PROD_LIMIT <= c * s <= PROD_LIMIT,
{
}

/// Processing one more sample at the end of a block extends the
/// direct-form run and output sequences by one step.
proof fn lemma_run1_snoc(f: BiquadFilter1, xs: Seq<i64>, x: i64)
    ensures
        f.run(xs.push(x)) == f.run(xs).stepped(x),
        f.outputs(xs.push(x)) == f.outputs(xs).push((f.run(xs).step_out(x) as i64)),
    decreases xs.len(),
{
    if xs.len() == 0 {
        assert(xs.push(x)[0] == x);
        assert(xs.push(x).drop_first() =~= Seq::<i64>::empty());
        assert(f.run(xs.push(x)) == f.stepped(x).run(Seq::<i64>::empty()));
        assert(f.outputs(xs.push(x)) == seq![(f.step_out(x) as i64)] + f.stepped(x).outputs(
            Seq::<i64>::empty(),
        ));
        assert(f.stepped(x).outputs(Seq::<i64>::empty()) =~= Seq::<i64>::empty());
        assert(f.outputs(xs.push(x)) =~= f.outputs(xs).push((f.run(xs).step_out(x) as i64)));
    } else {
        assert(xs.push(x)[0] == xs[0]);
        assert(xs.push(x).drop_first() =~= xs.drop_first().push(x));
        lemma_run1_snoc(f.stepped(xs[0]), xs.drop_first(), x);
        assert(f.run(xs.push(x)) == f.stepped(xs[0]).run(xs.drop_first().push(x)));
        assert(f.run(xs) == f.stepped(xs[0]).run(xs.drop_first()));
        assert(f.outputs(xs.push(x)) == seq![(f.step_out(xs[0]) as i64)] + f.stepped(
            xs[0],
        ).outputs(xs.drop_first().push(x)));
        assert(f.stepped(xs[0]).outputs(xs.drop_first().push(x)) == f.stepped(xs[0]).outputs(
            xs.drop_first(),
        ).push((f.run(xs).step_out(x) as i64)));
        assert(f.outputs(xs) == seq![(f.step_out(xs[0]) as i64)] + f.stepped(xs[0]).outputs(
            xs.drop_first(),
        ));
        assert(f.outputs(xs.push(x)) =~= f.outputs(xs).push((f.run(xs).step_out(x) as i64)));
    }
}

/// Processing one more sample at the end of a block extends the
/// transposed-form run and output sequences by one step.
proof fn lemma_run2_snoc(f: BiquadFilter2, xs: Seq<i64>, x: i64)
    ensures
        f.run(xs.push(x)) == f.run(xs).stepped(x),
        f.outputs(xs.push(x)) == f.outputs(xs).push((f.run(xs).step_out(x) as i64)),
    decreases xs.len(),
{
    if xs.len() == 0 {
        assert(xs.push(x)[0] == x);
        assert(xs.push(x).drop_first() =~= Seq::<i64>::empty());
        assert(f.run(xs.push(x)) == f.stepped(x).run(Seq::<i64>::empty()));
        assert(f.outputs(xs.push(x)) == seq![(f.step_out(x) as i64)] + f.stepped(x).outputs(
            Seq::<i64>::empty(),
        ));
        assert(f.stepped(x).outputs(Seq::<i64>::empty()) =~= Seq::<i64>::empty());
        assert(f.outputs(xs.push(x)) =~= f.outputs(xs).push((f.run(xs).step_out(x) as i64)));
    } else {
        assert(xs.push(x)[0] == xs[0]);
        assert(xs.push(x).drop_first() =~= xs.drop_first().push(x));
        lemma_run2_snoc(f.stepped(xs[0]), xs.drop_first(), x);
        assert(f.run(xs.push(x)) == f.stepped(xs[0]).run(xs.drop_first().push(x)));
        assert(f.run(xs) == f.stepped(xs[0]).run(xs.drop_first()));
        assert(f.outputs(xs.push(x)) == seq![(f.step_out(xs[0]) as i64)] + f.stepped(
            xs[0],
        ).outputs(xs.drop_first().push(x)));
        assert(f.stepped(xs[0]).outputs(xs.drop_first().push(x)) == f.stepped(xs[0]).outputs(
            xs.drop_first(),
        ).push((f.run(xs).step_out(x) as i64)));
        assert(f.outputs(xs) == seq![(f.step_out(xs[0]) as i64)] + f.stepped(xs[0]).outputs(
            xs.drop_first(),
        ));
        assert(f.outputs(xs.push(x)) =~= f.outputs(xs).push((f.run(xs).step_out(x) as i64)));
    }
}

/// One step keeps the two realizations in lock step: from corresponding
/// states and the same input sample they produce the same output sample and
/// their successor states correspond again.
pub proof fn lemma_realizations_step(f1: BiquadFilter1, f2: BiquadFilter2, x: i64)
    requires
        f1.wf(),
        f2.wf(),
        f2.corresponds(f1),
    ensures
        f2.step_out(x) == f1.step_out(x),
        f2.stepped(x).corresponds(f1.stepped(x)),
        f1.stepped(x).wf(),
        f2.stepped(x).wf(),
{
    lemma_coeff_sample_product(f1.coeffs.a0 as int, x as int);
    lemma_coeff_sample_product(f1.coeffs.a1 as int, x as int);
    lemma_coeff_sample_product(f1.coeffs.a2 as int, x as int);
    assert(f2.acc(x as int) == f1.acc(x as int));
    let y = f1.step_out(x);
    lemma_coeff_sample_product(f1.coeffs.b1 as int, y);
    lemma_coeff_sample_product(f1.coeffs.b2 as int, y);
    lemma_coeff_sample_product(f1.coeffs.a2 as int, f1.x1 as int);
    lemma_coeff_sample_product(f1.coeffs.b2 as int, f1.y1 as int);
    assert(f2.stepped(x).s0 == f2.s1 + f2.coeffs.a1 * x - f2.coeffs.b1 * y);
    assert(f2.stepped(x).s1 == f2.coeffs.a2 * x - f2.coeffs.b2 * y);
}

/// Direct-form and transposed-form realizations given identical
/// coefficients, corresponding states and an identical input sequence
/// produce identical output sequences, and their states still correspond
/// afterwards. Fresh or freshly reset filters with equal coefficients
/// correspond, so the two forms are interchangeable bit for bit.
pub proof fn lemma_realizations_agree(f1: BiquadFilter1, f2: BiquadFilter2, xs: Seq<i64>)
    requires
        f1.wf(),
        f2.wf(),
        f2.corresponds(f1),
    ensures
        f2.outputs(xs) == f1.outputs(xs),
        f2.run(xs).corresponds(f1.run(xs)),
        f1.run(xs).wf(),
        f2.run(xs).wf(),
    decreases xs.len(),
{
    if xs.len() == 0 {
        assert(f2.outputs(xs) =~= f1.outputs(xs));
    } else {
        lemma_realizations_step(f1, f2, xs[0]);
        lemma_realizations_agree(f1.stepped(xs[0]), f2.stepped(xs[0]), xs.drop_first());
        assert(f2.outputs(xs) =~= f1.outputs(xs));
    }
}

/// A filter whose state registers are all zero corresponds to its
/// transposed twin with cleared accumulators.
pub proof fn lemma_cleared_states_correspond(f1: BiquadFilter1, f2: BiquadFilter2)
    requires
        f2.coeffs == f1.coeffs,
        f1.x1 == 0 && f1.x2 == 0 && f1.y1 == 0 && f1.y2 == 0,
        f2.s0 == 0 && f2.s1 == 0,
    ensures
        f2.corresponds(f1),
{
}

/// A bypass section is the identity on every input block, whatever the
/// direct form's state registers hold: every output sample equals its input
/// sample exactly.
pub proof fn lemma_bypass_identity(f: BiquadFilter1, xs: Seq<i64>)
    requires
        f.wf(),
        f.coeffs.is_bypass(),
    ensures
        f.outputs(xs) == xs,
        f.run(xs).coeffs == f.coeffs,
    decreases xs.len(),
{
    if xs.len() == 0 {
        assert(f.outputs(xs) =~= xs);
    } else {
        lemma_bypass_step(f, xs[0]);
        lemma_bypass_identity(f.stepped(xs[0]), xs.drop_first());
        assert(f.outputs(xs) =~= xs);
    }
}

/// A bypass section in transposed form with cleared accumulators is the
/// identity on every input block.
pub proof fn lemma_bypass_identity_transposed(f: BiquadFilter2, xs: Seq<i64>)
    requires
        f.wf(),
        f.coeffs.is_bypass(),
        f.s0 == 0 && f.s1 == 0,
    ensures
        f.outputs(xs) == xs,
{
    let f1 = BiquadFilter1 { coeffs: f.coeffs, x1: 0, x2: 0, y1: 0, y2: 0 };
    lemma_cleared_states_correspond(f1, f);
    lemma_realizations_agree(f1, f, xs);
    lemma_bypass_identity(f1, xs);
}

/// One bypass step returns the input unchanged.
proof fn lemma_bypass_step(f: BiquadFilter1, x: i64)
    requires
        f.wf(),
        f.coeffs.is_bypass(),
    ensures
        f.step_out(x) == x,
{
    assert(f.acc(x as int) == COEFF_ONE * x);
    if x >= 0 {
        vstd::arithmetic::div_mod::lemma_div_multiples_vanish(x as int, COEFF_ONE as int);
    } else {
        vstd::arithmetic::mul::lemma_mul_unary_negation(COEFF_ONE as int, x as int);
        vstd::arithmetic::div_mod::lemma_div_multiples_vanish(-(x as int), COEFF_ONE as int);
    }
}

} // verus!
