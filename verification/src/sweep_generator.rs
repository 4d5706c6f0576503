//! Sine sweep generator.
//!
//! The generator produces the oscillator trajectory of a linear frequency
//! ramp, one sample at a time, in exact integer arithmetic. For each sample
//! it emits the current phase as a fraction of a full turn: a numerator over
//! the fixed denominator [`SweepGenerator::phase_den`]. The caller turns a
//! numerator `p` into the actual sample value `gain * sin(2*pi * p / den)`.
//!
//! Frequencies are integer hertz and the sweep time is in milliseconds, so
//! the per-sample frequency increment `(max - min) / (sample_rate * time)`
//! and the per-sample phase increment `freq / sample_rate` are exact
//! rationals and the emitted trajectory is reproducible bit for bit.

use vstd::prelude::*;

verus! {

/// Largest accepted sample rate in Hz.
pub const MAX_SAMPLE_RATE: u32 = 1000000;

/// Largest accepted frequency bound in Hz.
pub const MAX_FREQ_HZ: u32 = 1000000;

/// Largest accepted sweep time in milliseconds.
pub const MAX_SWEEP_MS: u32 = 1000000;

/// Upper bound kept on the scaled frequency while a sweep runs; the scaled
/// frequency of any in-range configuration stays below it even after the
/// final increment.
pub const FREQ_NUM_LIMIT: u64 = 2000000000000000000;

/// Error variants.
#[derive(Debug, Clone, Copy, PartialEq, Eq, Structural)]
pub enum SweepError {
    /// Sweep was not started.
    NotStarted,

    /// Maximum frequency reached.
    MaxFreqReached,
}

/// Sweep generator.
///
/// The current frequency is carried as `freq_num / freq_scale()` Hz and the
/// current phase as `phase_num / phase_den()` of a full turn.
pub struct SweepGenerator {
    /// Sample rate in Hz.
    pub sample_rate: u32,

    /// Minimum frequency in Hz.
    pub min_freq: u32,

    /// Maximum frequency in Hz.
    pub max_freq: u32,

    /// Sweep time in milliseconds.
    pub sweep_ms: u32,

    /// Gain in thousandths.
    pub gain_milli: u32,

    /// Current frequency, scaled by `freq_scale()`.
    pub freq_num: u64,

    /// Current phase as a fraction of a full turn, scaled by `phase_den()`.
    pub phase_num: u64,

    /// Started flag.
    pub started: bool,
}

impl SweepGenerator {
    /// Denominator of the scaled frequency: `sample_rate * sweep_ms`.
    pub open spec fn freq_scale(self) -> int {
        self.sample_rate * self.sweep_ms
    }

    /// Denominator of the phase fraction: `sample_rate^2 * sweep_ms`.
    pub open spec fn phase_scale(self) -> int {
        self.sample_rate * self.sample_rate * self.sweep_ms
    }

    /// The maximum frequency, scaled like `freq_num`.
    pub open spec fn freq_limit(self) -> int {
        self.max_freq * self.freq_scale()
    }

    /// Scaled per-sample frequency increment: `(max - min) / (rate * time)`
    /// Hz expressed over `freq_scale()`. A ramp whose maximum lies below its
    /// minimum never advances; it is exhausted from the start.
    pub open spec fn freq_step(self) -> int {
        if self.max_freq >= self.min_freq {
            1000 * (self.max_freq - self.min_freq)
        } else {
            0
        }
    }

    /// Scaled frequency probed for the `n`-th sample emitted from this state.
    pub open spec fn freq_at(self, n: nat) -> int {
        self.freq_num + n * self.freq_step()
    }

    /// Scaled phase emitted for the `n`-th sample from this state: each
    /// emission advances the phase by the current frequency over the sample
    /// rate, wrapped modulo a full turn.
    pub open spec fn phase_at(self, n: nat) -> int
        decreases n,
    {
        if n == 0 {
            self.phase_num as int
        } else {
            (self.phase_at((n - 1) as nat) + self.freq_at((n - 1) as nat)) % self.phase_scale()
        }
    }

    /// How many samples of `idx` in `[from, len)` are emitted before the
    /// frequency first exceeds the configured maximum.
    pub open spec fn emit_upto(self, from: nat, len: nat) -> nat
        decreases len - from,
    {
        if from >= len {
            0
        } else if self.freq_at(from) > self.freq_limit() {
            0
        } else {
            1 + self.emit_upto((from + 1) as nat, len)
        }
    }

    /// How many of `len` requested samples are emitted before the frequency
    /// first exceeds the configured maximum.
    pub open spec fn emit_count(self, len: nat) -> nat {
        self.emit_upto(0, len)
    }

    /// Configuration and state bounds maintained by every operation.
    pub open spec fn wf(self) -> bool {
        &&& 1 <= self.sample_rate <= MAX_SAMPLE_RATE
        &&& 1 <= self.sweep_ms <= MAX_SWEEP_MS
        &&& self.min_freq <= MAX_FREQ_HZ
        &&& self.max_freq <= MAX_FREQ_HZ
        &&& self.phase_num < self.phase_scale()
        &&& self.freq_num <= FREQ_NUM_LIMIT
    }

    /// The two generators are configured identically.
    pub open spec fn same_config(self, other: SweepGenerator) -> bool {
        &&& self.sample_rate == other.sample_rate
        &&& self.min_freq == other.min_freq
        &&& self.max_freq == other.max_freq
        &&& self.sweep_ms == other.sweep_ms
        &&& self.gain_milli == other.gain_milli
    }

    /// The state every `start` call establishes: frequency back at the
    /// minimum, phase at zero, generator active.
    pub open spec fn just_started(self) -> bool {
        &&& self.started
        &&& self.freq_num == self.min_freq * self.freq_scale()
        &&& self.phase_num == 0
    }

    /// Returns a new instance with the default range 20 Hz to 20 kHz, a
    /// sweep time of one second and unity gain.
    pub fn new(sample_rate: u32) -> (r: SweepGenerator)
        requires
            1 <= sample_rate <= MAX_SAMPLE_RATE,
        ensures
            r.wf(),
            r.sample_rate == sample_rate,
            r.min_freq == 20,
            r.max_freq == 20000,
            r.sweep_ms == 1000,
            r.gain_milli == 1000,
            r.freq_num == r.min_freq * r.freq_scale(),
            r.phase_num == 0,
            !r.started,
    {
        let freq_num: u64 = 20000 * (sample_rate as u64);
        proof {
            lemma_scale_bounds(sample_rate as int, sample_rate as int, 1000);
        }
        SweepGenerator {
            sample_rate,
            min_freq: 20,
            max_freq: 20000,
            sweep_ms: 1000,
            gain_milli: 1000,
            freq_num,
            phase_num: 0,
            started: false,
        }
    }

    /// Sets the sweep range in Hz. Reconfiguration happens before `start`.
    pub fn set_range(&mut self, min_freq: u32, max_freq: u32)
        requires
            old(self).wf(),
            !old(self).started,
            min_freq <= MAX_FREQ_HZ,
            max_freq <= MAX_FREQ_HZ,
        ensures
            final(self).wf(),
            !final(self).started,
            final(self).min_freq == min_freq,
            final(self).max_freq == max_freq,
            final(self).sample_rate == old(self).sample_rate,
            final(self).sweep_ms == old(self).sweep_ms,
            final(self).gain_milli == old(self).gain_milli,
            final(self).freq_num == old(self).freq_num,
            final(self).phase_num == old(self).phase_num,
    {
        self.min_freq = min_freq;
        self.max_freq = max_freq;
    }

    /// Sets the sweep time in milliseconds. Reconfiguration happens before
    /// `start`; the resting phase returns to zero so that the stored phase
    /// stays a valid fraction of the new scale.
    pub fn set_time(&mut self, sweep_ms: u32)
        requires
            old(self).wf(),
            !old(self).started,
            1 <= sweep_ms <= MAX_SWEEP_MS,
        ensures
            final(self).wf(),
            !final(self).started,
            final(self).sweep_ms == sweep_ms,
            final(self).phase_num == 0,
            final(self).freq_num == old(self).freq_num,
            final(self).sample_rate == old(self).sample_rate,
            final(self).min_freq == old(self).min_freq,
            final(self).max_freq == old(self).max_freq,
            final(self).gain_milli == old(self).gain_milli,
    {
        proof {
            lemma_scale_bounds(
                old(self).sample_rate as int,
                old(self).sample_rate as int,
                sweep_ms as int,
            );
        }
        self.sweep_ms = sweep_ms;
        self.phase_num = 0;
    }

    /// Sets the gain in thousandths.
    pub fn set_gain(&mut self, gain_milli: u32)
        requires
            old(self).wf(),
        ensures
            final(self).wf(),
            final(self).gain_milli == gain_milli,
            final(self).started == old(self).started,
            final(self).sample_rate == old(self).sample_rate,
            final(self).min_freq == old(self).min_freq,
            final(self).max_freq == old(self).max_freq,
            final(self).sweep_ms == old(self).sweep_ms,
            final(self).freq_num == old(self).freq_num,
            final(self).phase_num == old(self).phase_num,
    {
        self.gain_milli = gain_milli;
    }

    /// Starts the sweep: the frequency returns to the configured minimum,
    /// the phase to zero, and the generator becomes active.
    pub fn start(&mut self)
        requires
            old(self).wf(),
        ensures
            final(self).wf(),
            final(self).just_started(),
            final(self).same_config(*old(self)),
    {
        proof {
            lemma_scale_product(
                self.min_freq as int,
                self.sample_rate as int,
                self.sweep_ms as int,
            );
        }
        self.freq_num = (self.min_freq as u64) * (self.sample_rate as u64) * (self.sweep_ms as u64);
        self.phase_num = 0;
        self.started = true;
    }

    /// Generates a block of samples: fills `buffer` in place with one phase
    /// numerator per sample.
    ///
    /// Fails with `NotStarted` when called before `start`, leaving
    /// everything untouched. Fails with `MaxFreqReached` the first time the
    /// per-sample frequency exceeds the configured maximum: the generator
    /// deactivates, the prefix of the buffer written so far is valid and the
    /// remainder keeps its old contents. That signal is the normal end of a
    /// sweep, not a fault.
    pub fn process(&mut self, buffer: &mut Vec<u64>) -> (r: Result<(), SweepError>)
        requires
            old(self).wf(),
        ensures
            final(self).wf(),
            final(buffer)@.len() == old(buffer)@.len(),
            !old(self).started ==> {
                &&& r == Err::<(), SweepError>(SweepError::NotStarted)
                &&& *final(self) == *old(self)
                &&& final(buffer)@ == old(buffer)@
            },
            old(self).started ==> {
                let m = old(self).emit_count(old(buffer)@.len() as nat);
                &&& (r == Ok::<(), SweepError>(()) <==> m == old(buffer)@.len())
                &&& (r == Err::<(), SweepError>(SweepError::MaxFreqReached) <==> m < old(
                    buffer,
                )@.len())
                &&& forall|i: int|
                    0 <= i < m ==> final(buffer)@[i] == old(self).phase_at(i as nat)
                &&& forall|i: int|
                    m <= i < old(buffer)@.len() ==> final(buffer)@[i] == old(buffer)@[i]
                &&& final(self).freq_num == old(self).freq_at(m)
                &&& final(self).phase_num == old(self).phase_at(m)
                &&& final(self).started == (m == old(buffer)@.len())
                &&& final(self).same_config(*old(self))
            },
    {
        if !self.started {
            return Err(SweepError::NotStarted);
        }
        let len = buffer.len();
        proof {
            lemma_scale_product(
                self.max_freq as int,
                self.sample_rate as int,
                self.sweep_ms as int,
            );
            lemma_scale_bounds(
                self.sample_rate as int,
                self.sample_rate as int,
                self.sweep_ms as int,
            );
        }
        let fmax: u64 = (self.max_freq as u64) * (self.sample_rate as u64) * (self.sweep_ms
            as u64);
        let pden: u64 = (self.sample_rate as u64) * (self.sample_rate as u64) * (self.sweep_ms
            as u64);
        let step: u64 = if self.max_freq >= self.min_freq {
            1000 * ((self.max_freq - self.min_freq) as u64)
        } else {
            0
        };
        let ghost g = *self;
        let mut i: usize = 0;
        while i < len
            invariant
                i <= len,
                buffer@.len() == len,
                old(buffer)@.len() == len,
                g == *old(self),
                g.started,
                g.wf(),
                self.sample_rate == g.sample_rate,
                self.min_freq == g.min_freq,
                self.max_freq == g.max_freq,
                self.sweep_ms == g.sweep_ms,
                self.gain_milli == g.gain_milli,
                self.started,
                fmax == g.freq_limit(),
                pden == g.phase_scale(),
                step == g.freq_step(),
                fmax <= 1000000000000000000,
                1 <= pden <= 1000000000000000000,
                step <= 1000000000,
                self.freq_num == g.freq_at(i as nat),
                self.phase_num == g.phase_at(i as nat),
                self.freq_num <= FREQ_NUM_LIMIT,
                self.phase_num < pden,
                forall|j: nat| j < i ==> g.freq_at(j) <= g.freq_limit(),
                forall|j: int| 0 <= j < i ==> buffer@[j] == g.phase_at(j as nat),
                forall|j: int| i <= j < len ==> buffer@[j] == old(buffer)@[j],
            decreases len - i,
        {
            if self.freq_num > fmax {
                self.started = false;
                proof {
                    lemma_emit_prefix(g, 0, i as nat, len as nat);
                }
                return Err(SweepError::MaxFreqReached);
            }
            buffer.set(i, self.phase_num);
            self.phase_num = (self.phase_num + self.freq_num) % pden;
            self.freq_num = self.freq_num + step;
            proof {
                lemma_freq_at_succ(g, i as nat);
                assert(g.phase_at((i + 1) as nat) == (g.phase_at(i as nat) + g.freq_at(
                    i as nat,
                )) % g.phase_scale());
            }
            i = i + 1;
        }
        proof {
            lemma_emit_prefix(g, 0, len as nat, len as nat);
        }
        Ok(())
    }

    /// The gain in thousandths.
    pub fn gain_milli(&self) -> (r: u32)
        ensures
            r == self.gain_milli,
    {
        self.gain_milli
    }

    /// The sample rate in Hz.
    pub fn sample_rate(&self) -> (r: u32)
        ensures
            r == self.sample_rate,
    {
        self.sample_rate
    }

    /// Denominator of the emitted phase fractions.
    pub fn phase_den(&self) -> (r: u64)
        requires
            self.wf(),
        ensures
            r == self.phase_scale(),
    {
        proof {
            lemma_scale_product(
                self.sample_rate as int,
                self.sample_rate as int,
                self.sweep_ms as int,
            );
        }
        (self.sample_rate as u64) * (self.sample_rate as u64) * (self.sweep_ms as u64)
    }
}

/// Every emitted phase numerator is a valid fraction of a turn: it lies
/// below the phase denominator, so the sample it stands for lies within one
/// period of the sine and the evaluated block stays within the configured
/// gain.
pub proof fn lemma_phase_in_range(g: SweepGenerator, n: nat)
    requires
        g.wf(),
    ensures
        0 <= g.phase_at(n) < g.phase_scale(),
    decreases n,
{
    if n == 0 {
    } else {
        lemma_phase_in_range(g, (n - 1) as nat);
        vstd::arithmetic::div_mod::lemma_mod_bound(
            g.phase_at((n - 1) as nat) + g.freq_at((n - 1) as nat),
            g.phase_scale(),
        );
    }
}

/// Restarting reproduces the identical sample sequence: two identically
/// configured generators that have both just been started emit the same
/// phase trajectory and stop after the same number of samples, whatever
/// either generator did before its `start` call.
pub proof fn lemma_restart_reproduces(a: SweepGenerator, b: SweepGenerator, n: nat)
    requires
        a.wf(),
        b.wf(),
        a.same_config(b),
        a.just_started(),
        b.just_started(),
    ensures
        a.phase_at(n) == b.phase_at(n),
        a.freq_at(n) == b.freq_at(n),
        forall|len: nat| a.emit_count(len) == b.emit_count(len),
{
    assert(a == b);
}

/// What an emission count means: every probe before the counted prefix is
/// within the frequency limit, and when the count falls short of the
/// request, the very next probe exceeds it.
pub proof fn lemma_emit_inversion(g: SweepGenerator, len: nat)
    ensures
        g.emit_count(len) <= len,
        forall|j: nat| j < g.emit_count(len) ==> g.freq_at(j) <= g.freq_limit(),
        g.emit_count(len) < len ==> g.freq_at(g.emit_count(len)) > g.freq_limit(),
{
    lemma_emit_upto_inversion(g, 0, len);
}

/// Generalization of [`lemma_emit_inversion`] to a count started at `from`.
proof fn lemma_emit_upto_inversion(g: SweepGenerator, from: nat, len: nat)
    requires
        from <= len,
    ensures
        g.emit_upto(from, len) <= len - from,
        forall|j: nat|
            from <= j < from + g.emit_upto(from, len) ==> g.freq_at(j) <= g.freq_limit(),
        from + g.emit_upto(from, len) < len ==> g.freq_at(
            (from + g.emit_upto(from, len)) as nat,
        ) > g.freq_limit(),
    decreases len - from,
{
    if from >= len {
    } else if g.freq_at(from) > g.freq_limit() {
    } else {
        lemma_emit_upto_inversion(g, (from + 1) as nat, len);
    }
}

/// A generator whose scaled frequency and phase sit `k` samples into the
/// trajectory of an identically configured one continues that trajectory:
/// its own sample `j` is the other's sample `k + j`.
pub proof fn lemma_trajectory_shift(a: SweepGenerator, b: SweepGenerator, k: nat, j: nat)
    requires
        b.same_config(a),
        b.freq_num == a.freq_at(k),
        b.phase_num == a.phase_at(k),
    ensures
        b.freq_at(j) == a.freq_at((k + j) as nat),
        b.phase_at(j) == a.phase_at((k + j) as nat),
    decreases j,
{
    assert(b.freq_step() == a.freq_step());
    assert((k + j) * a.freq_step() == k * a.freq_step() + j * a.freq_step())
        by (nonlinear_arith);
    if j != 0 {
        lemma_trajectory_shift(a, b, k, (j - 1) as nat);
        assert((k + j - 1) * a.freq_step() == k * a.freq_step() + (j - 1) * a.freq_step())
            by (nonlinear_arith);
    }
}

/// When the first `upto` probes of a block stay at or below the frequency
/// limit and the next probe (if any) exceeds it, exactly `upto - from` of
/// the samples indexed from `from` are emitted.
proof fn lemma_emit_prefix(g: SweepGenerator, from: nat, upto: nat, len: nat)
    requires
        from <= upto <= len,
        forall|j: nat| from <= j < upto ==> g.freq_at(j) <= g.freq_limit(),
        upto < len ==> g.freq_at(upto) > g.freq_limit(),
    ensures
        g.emit_upto(from, len) == upto - from,
    decreases upto - from,
{
    if from < upto {
        assert(g.freq_at(from) <= g.freq_limit());
        lemma_emit_prefix(g, (from + 1) as nat, upto, len);
    }
}

/// Advancing one sample moves the probed frequency by one step.
proof fn lemma_freq_at_succ(g: SweepGenerator, n: nat)
    ensures
        g.freq_at((n + 1) as nat) == g.freq_at(n) + g.freq_step(),
{
    assert((n + 1) * g.freq_step() == n * g.freq_step() + g.freq_step()) by (nonlinear_arith);
}

/// The product of three factors bounded by the configuration limits stays
/// below `FREQ_NUM_LIMIT`.
proof fn lemma_scale_product(a: int, b: int, c: int)
    by (nonlinear_arith)
    requires
        0 <= a <= 1000000,
        0 <= b <= 1000000,
        0 <= c <= 1000000,
    ensures
        0 <= a * b <= 1000000000000,
        0 <= a * b * c <= 1000000000000000000,
        a * b * c == a * (b * c),
{
}

/// Bound on a two-factor scale times a third in-range factor.
proof fn lemma_scale_bounds(a: int, b: int, c: int)
    by (nonlinear_arith)
    requires
        1 <= a <= 1000000,
        1 <= b <= 1000000,
        1 <= c <= 1000000,
    ensures
        1 <= a * b <= 1000000000000,
        1 <= a * b * c <= 1000000000000000000,
        a * b * c == a * (b * c),
{
}

} // verus!
