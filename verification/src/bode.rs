//! Frequency-response analysis support: analyzer configuration, the exact
//! excitation trajectory, the block layout of an analyzer run, and spectrum
//! bin arithmetic.
//!
//! The floating-point stages of a run (evaluating the sine, the Fourier
//! transform, the decibel and degree conversions) are the caller's; what is
//! here fixes everything those stages consume: which samples exist, in which
//! blocks they are processed, and which bin corresponds to which frequency.

use vstd::prelude::*;

use crate::sweep_generator::{SweepGenerator, MAX_SAMPLE_RATE};

verus! {

/// Configuration for the analyzer.
#[derive(Debug, Clone, Copy)]
pub struct FftAnalyzerConfig {
    /// Sample rate in Hz.
    pub sample_rate: u32,

    /// Block size for each process call.
    pub block_size: usize,
}

impl FftAnalyzerConfig {
    /// Bounds under which a run's sizes stay computable.
    pub open spec fn wf(self) -> bool {
        &&& 1 <= self.sample_rate <= MAX_SAMPLE_RATE
        &&& 1 <= self.block_size
    }
}

impl Default for FftAnalyzerConfig {
    /// Returns the default configuration for the analyzer:
    /// - Sample rate: 48 kHz
    /// - Block size: 64 samples
    fn default() -> (r: FftAnalyzerConfig)
        ensures
            r.sample_rate == 48000,
            r.block_size == 64,
            r.wf(),
    {
        FftAnalyzerConfig { sample_rate: 48000, block_size: 64 }
    }
}

/// The generator state every analyzer run excites its device under test
/// with: a just-started sweep from 1 Hz to 20 kHz over one second at unity
/// gain.
pub open spec fn sweep_source(sample_rate: u32) -> SweepGenerator {
    SweepGenerator {
        sample_rate,
        min_freq: 1,
        max_freq: 20000,
        sweep_ms: 1000,
        gain_milli: 1000,
        freq_num: (sample_rate * 1000) as u64,
        phase_num: 0,
        started: true,
    }
}

/// Generates the full excitation sweep as phase numerators over the
/// denominator `sweep_source(sample_rate).phase_scale()`: batches of 16
/// samples are collected until the generator reports the end of the sweep,
/// and the partial batch the end falls into is discarded.
pub fn sweep_phases(sample_rate: u32) -> (r: Vec<u64>)
    requires
        1 <= sample_rate <= MAX_SAMPLE_RATE,
    ensures
        ({
            let g = sweep_source(sample_rate);
            &&& r@.len() % 16 == 0
            &&& r@.len() <= sample_rate + 1
            &&& forall|i: int| 0 <= i < r@.len() ==> r@[i] == g.phase_at(i as nat)
            &&& forall|i: nat| i < r@.len() ==> g.freq_at(i) <= g.freq_limit()
            &&& g.emit_count((r@.len() + 16) as nat) < r@.len() + 16
            &&& r@.len() == 16 * (((sample_rate + 1) as int) / 16)
        }),
{
    let ghost g = sweep_source(sample_rate);
    let mut gen = SweepGenerator::new(sample_rate);
    gen.set_range(1, 20000);
    gen.set_time(1000);
    gen.start();
    proof {
        assert(gen == g);
    }
    let mut samples: Vec<u64> = Vec::new();
    let mut buffer: Vec<u64> = Vec::new();
    let mut j: usize = 0;
    while j < 16
        invariant
            j <= 16,
            buffer@.len() == j,
        decreases 16 - j,
    {
        buffer.push(0);
        j = j + 1;
    }
    loop
        invariant_except_break
            gen.wf(),
            gen.started,
            gen.same_config(g),
            g == sweep_source(sample_rate),
            1 <= sample_rate <= MAX_SAMPLE_RATE,
            buffer@.len() == 16,
            samples@.len() % 16 == 0,
            samples@.len() <= sample_rate + 1,
            gen.freq_num == g.freq_at(samples@.len() as nat),
            gen.phase_num == g.phase_at(samples@.len() as nat),
            forall|i: int| 0 <= i < samples@.len() ==> samples@[i] == g.phase_at(i as nat),
            forall|i: nat| i < samples@.len() ==> g.freq_at(i) <= g.freq_limit(),
        ensures
            samples@.len() % 16 == 0,
            samples@.len() <= sample_rate + 1,
            forall|i: int| 0 <= i < samples@.len() ==> samples@[i] == g.phase_at(i as nat),
            forall|i: nat| i < samples@.len() ==> g.freq_at(i) <= g.freq_limit(),
            g.emit_count((samples@.len() + 16) as nat) < samples@.len() + 16,
            samples@.len() == 16 * (((sample_rate + 1) as int) / 16),
        decreases sample_rate + 17 - samples@.len(),
    {
        let ghost before = gen;
        let ghost done = samples@.len() as nat;
        let r = gen.process(&mut buffer);
        if r.is_err() {
            proof {
                let m = before.emit_count(16);
                crate::sweep_generator::lemma_emit_inversion(before, 16);
                crate::sweep_generator::lemma_trajectory_shift(g, before, done, m);
                assert(g.freq_at((done + m) as nat) > g.freq_limit());
                let c = g.emit_count((done + 16) as nat);
                crate::sweep_generator::lemma_emit_inversion(g, (done + 16) as nat);
                if c == done + 16 {
                    assert(g.freq_at((done + m) as nat) <= g.freq_limit());
                }
                // the failing probe pins the kept length: it is the largest
                // multiple of 16 among the admissible probe indexes
                lemma_sweep_index_exceeds(g, sample_rate, (done + m) as nat);
                lemma_batch_count(sample_rate as int + 1, done as int);
            }
            break;
        }
        let mut k: usize = 0;
        while k < 16
            invariant
                k <= 16,
                buffer@.len() == 16,
                samples@.len() == done + k,
                done % 16 == 0,
                g == sweep_source(sample_rate),
                1 <= sample_rate <= MAX_SAMPLE_RATE,
                forall|i: int| 0 <= i < 16 ==> buffer@[i] == before.phase_at(i as nat),
                before.same_config(g),
                before.freq_num == g.freq_at(done),
                before.phase_num == g.phase_at(done),
                forall|i: int| 0 <= i < samples@.len() ==> samples@[i] == g.phase_at(i as nat),
            decreases 16 - k,
        {
            let v = buffer[k];
            proof {
                crate::sweep_generator::lemma_trajectory_shift(g, before, done, k as nat);
            }
            samples.push(v);
            k = k + 1;
        }
        proof {
            crate::sweep_generator::lemma_emit_inversion(before, 16);
            assert forall|i: nat| i < samples@.len() implies g.freq_at(i) <= g.freq_limit() by {
                if i >= done {
                    crate::sweep_generator::lemma_trajectory_shift(
                        g,
                        before,
                        done,
                        (i - done) as nat,
                    );
                }
            }
            crate::sweep_generator::lemma_trajectory_shift(g, before, done, 16);
            lemma_sweep_index_bound(g, sample_rate, (samples@.len() - 1) as nat);
        }
    }
    samples
}

/// A probe within the frequency limit of the standard sweep cannot lie
/// beyond one second's worth of samples.
proof fn lemma_sweep_index_bound(g: SweepGenerator, sample_rate: u32, i: nat)
    requires
        g == sweep_source(sample_rate),
        1 <= sample_rate,
        g.freq_at(i) <= g.freq_limit(),
    ensures
        i <= sample_rate,
{
    assert(g.freq_step() == 19999000);
    assert(i <= sample_rate) by (nonlinear_arith)
        requires
            1 <= sample_rate,
            (sample_rate as int) * 1000 + i * 19999000 <= 20000 * ((sample_rate as int) * 1000),
    ;
}

/// A probe beyond one second's worth of samples exceeds the frequency
/// limit of the standard sweep.
proof fn lemma_sweep_index_exceeds(g: SweepGenerator, sample_rate: u32, i: nat)
    requires
        g == sweep_source(sample_rate),
        1 <= sample_rate,
        g.freq_at(i) > g.freq_limit(),
    ensures
        i > sample_rate,
{
    assert(g.freq_step() == 19999000);
    assert(i > sample_rate) by (nonlinear_arith)
        requires
            1 <= sample_rate,
            (sample_rate as int) * 1000 + i * 19999000 > 20000 * ((sample_rate as int) * 1000),
    ;
}

/// A multiple of 16 that reaches into the last (possibly partial) batch of
/// `total` items is the number of items in the whole batches.
proof fn lemma_batch_count(total: int, done: int)
    requires
        0 <= done,
        done % 16 == 0,
        done <= total,
        total < done + 16,
    ensures
        done == 16 * (total / 16),
{
    vstd::arithmetic::div_mod::lemma_fundamental_div_mod(total, 16);
    vstd::arithmetic::div_mod::lemma_mod_bound(total, 16);
    vstd::arithmetic::div_mod::lemma_fundamental_div_mod(done, 16);
    vstd::arithmetic::div_mod::lemma_mod_bound(done, 16);
    let q = total / 16;
    let d = done / 16;
    assert(d == q) by (nonlinear_arith)
        requires
            done == 16 * d,
            total == 16 * q + total % 16,
            0 <= total % 16 < 16,
            done <= total,
            total < done + 16,
    ;
}

/// Number of blocks a buffer of `len` samples is processed in.
pub open spec fn chunk_count(len: int, block_size: int) -> int {
    (len + block_size - 1) / block_size
}

/// The block layout of an analyzer run over `len` samples: each entry is
/// the start index and length of one processing call's slice. Every block
/// has the configured size except the last, which takes whatever remains
/// when the block size does not divide the total evenly.
pub fn chunk_bounds(len: usize, block_size: usize) -> (r: Vec<(usize, usize)>)
    requires
        1 <= block_size,
    ensures
        r@.len() == chunk_count(len as int, block_size as int),
        forall|i: int| 0 <= i < r@.len() ==> (#[trigger] r@[i]).0 == i * block_size,
        forall|i: int|
            0 <= i < r@.len() ==> (#[trigger] r@[i]).1 == (if i * block_size + block_size
                <= len {
                block_size as int
            } else {
                len - i * block_size
            }),
{
    let mut r: Vec<(usize, usize)> = Vec::new();
    let mut start: usize = 0;
    proof {
        assert(r@.len() * block_size == 0) by (nonlinear_arith)
            requires
                r@.len() == 0,
        ;
    }
    while start < len
        invariant
            1 <= block_size,
            start == r@.len() * block_size,
            start < len + block_size,
            r@.len() == 0 || start < len,
            forall|i: int| 0 <= i < r@.len() ==> (#[trigger] r@[i]).0 == i * block_size,
            forall|i: int|
                0 <= i < r@.len() ==> (#[trigger] r@[i]).1 == (if i * block_size + block_size
                    <= len {
                    block_size as int
                } else {
                    len - i * block_size
                }),
            forall|i: int| 0 <= i < r@.len() ==> (#[trigger] r@[i]).0 + r@[i].1 <= len,
        decreases len - start,
    {
        let size = if len - start >= block_size {
            block_size
        } else {
            len - start
        };
        let ghost n = r@.len();
        r.push((start, size));
        proof {
            assert((n + 1) * block_size == n * block_size + block_size) by (nonlinear_arith);
        }
        if len - start <= block_size {
            proof {
                lemma_chunk_count_exact(len as int, block_size as int, n as int + 1);
            }
            return r;
        }
        start = start + block_size;
    }
    proof {
        // the loop body always returns, so falling through means it never
        // ran: there was nothing to split
        assert(len == 0);
        assert(chunk_count(len as int, block_size as int) == 0) by {
            vstd::arithmetic::div_mod::lemma_basic_div(
                len as int + block_size - 1,
                block_size as int,
            );
        }
    }
    r
}

/// Ceiling-division characterization: a block count whose last block
/// reaches `len` while its predecessor does not is the chunk count.
proof fn lemma_chunk_count_exact(len: int, block_size: int, q: int)
    requires
        1 <= block_size,
        1 <= q,
        q * block_size >= len,
        (q - 1) * block_size < len,
    ensures
        chunk_count(len, block_size) == q,
{
    let c = chunk_count(len, block_size);
    vstd::arithmetic::div_mod::lemma_fundamental_div_mod(len + block_size - 1, block_size);
    vstd::arithmetic::div_mod::lemma_mod_bound(len + block_size - 1, block_size);
    assert(c * block_size >= len && (c - 1) * block_size < len) by (nonlinear_arith)
        requires
            1 <= block_size,
            len + block_size - 1 == block_size * c + ((len + block_size - 1) % block_size),
            0 <= (len + block_size - 1) % block_size < block_size,
    ;
    assert(c == q) by (nonlinear_arith)
        requires
            1 <= block_size,
            c * block_size >= len,
            (c - 1) * block_size < len,
            q * block_size >= len,
            (q - 1) * block_size < len,
    ;
}

/// Absolute value.
pub open spec fn abs_i(v: int) -> int {
    if v >= 0 {
        v
    } else {
        -v
    }
}

/// The spectrum bin whose center frequency `k * sample_rate / fft_len` lies
/// nearest to `freq`, for a forward transform of `fft_len` time samples.
/// Ties between two bins fall to the higher one.
pub fn nearest_bin(freq: u32, sample_rate: u32, fft_len: usize) -> (r: usize)
    requires
        1 <= sample_rate <= MAX_SAMPLE_RATE,
        freq <= sample_rate,
        1 <= fft_len <= 1000000000,
    ensures
        r <= fft_len,
        forall|k: int|
            abs_i(2 * (freq * fft_len) - 2 * (r as int) * sample_rate) <= #[trigger] abs_i(
                2 * (freq * fft_len) - 2 * k * sample_rate,
            ),
{
    proof {
        lemma_bin_products(freq as int, sample_rate as int, fft_len as int);
    }
    let num: u64 = 2 * (freq as u64) * (fft_len as u64) + (sample_rate as u64);
    let den: u64 = 2 * (sample_rate as u64);
    let q: u64 = num / den;
    proof {
        lemma_nearest_bin_correct(freq as int, sample_rate as int, fft_len as int, q as int);
    }
    q as usize
}

/// The products appearing in the bin computation stay within `u64`, and the
/// rounded quotient is no more than the transform length.
proof fn lemma_bin_products(freq: int, sample_rate: int, fft_len: int)
    by (nonlinear_arith)
    requires
        1 <= sample_rate <= MAX_SAMPLE_RATE,
        0 <= freq <= sample_rate,
        1 <= fft_len <= 1000000000,
    ensures
        0 <= 2 * freq * fft_len <= 2000000000000000,
        2 * freq * fft_len + sample_rate < 2 * sample_rate * (fft_len + 1),
        2 * freq * fft_len == 2 * (freq * fft_len),
{
}

/// The rounded quotient minimizes the distance to the target frequency
/// over all bins.
proof fn lemma_nearest_bin_correct(freq: int, sample_rate: int, fft_len: int, q: int)
    requires
        1 <= sample_rate,
        0 <= freq <= sample_rate,
        1 <= fft_len <= 1000000000,
        q == (2 * freq * fft_len + sample_rate) / (2 * sample_rate),
    ensures
        q <= fft_len,
        forall|k: int|
            abs_i(2 * (freq * fft_len) - 2 * q * sample_rate) <= #[trigger] abs_i(
                2 * (freq * fft_len) - 2 * k * sample_rate,
            ),
{
    let a = 2 * freq * fft_len;
    let d = 2 * sample_rate;
    vstd::arithmetic::div_mod::lemma_fundamental_div_mod(a + sample_rate, d);
    vstd::arithmetic::div_mod::lemma_mod_bound(a + sample_rate, d);
    // the rounding error is at most half a bin in either direction
    assert(-sample_rate <= a - q * d < sample_rate) by (nonlinear_arith)
        requires
            1 <= sample_rate,
            d == 2 * sample_rate,
            a + sample_rate == d * q + ((a + sample_rate) % d),
            0 <= (a + sample_rate) % d < d,
    ;
    assert(q <= fft_len) by (nonlinear_arith)
        requires
            1 <= sample_rate,
            0 <= freq <= sample_rate,
            1 <= fft_len,
            a == 2 * freq * fft_len,
            -sample_rate <= a - q * (2 * sample_rate) < sample_rate,
    ;
    assert forall|k: int|
        abs_i(2 * (freq * fft_len) - 2 * q * sample_rate) <= #[trigger] abs_i(
            2 * (freq * fft_len) - 2 * k * sample_rate,
        ) by {
        assert(abs_i(a - 2 * q * sample_rate) <= abs_i(a - 2 * k * sample_rate))
            by (nonlinear_arith)
            requires
                1 <= sample_rate,
                -sample_rate <= a - q * (2 * sample_rate) < sample_rate,
        ;
        assert(2 * (freq * fft_len) == a) by (nonlinear_arith)
            requires
                a == 2 * freq * fft_len,
        ;
    }
}

} // verus!
