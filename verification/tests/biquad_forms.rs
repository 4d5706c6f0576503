//! Checks for the two biquad realizations: the bypass identity, the exact
//! agreement of direct and transposed form, saturation, reset, and the
//! parameter clamp.

use dsp_analyze::biquad::{
    BiquadFilter1, BiquadFilter2, BiquadFilterCoefficients, FilterParams, COEFF_LIMIT, COEFF_ONE,
};

fn q30(x: f64) -> i64 {
    (x * 1073741824.0).round() as i64
}

/// A lowpass section at 1 kHz / 48 kHz with Q 0.7, quantized.
fn lowpass_coefficients() -> BiquadFilterCoefficients {
    let k = (std::f64::consts::PI * 1000.0 / 48000.0).tan();
    let q = 0.7;
    let norm = 1.0 / (1.0 + k / q + k * k);
    let a0 = k * k * norm;
    BiquadFilterCoefficients {
        a0: q30(a0),
        a1: q30(2.0 * a0),
        a2: q30(a0),
        b1: q30(2.0 * (k * k - 1.0) * norm),
        b2: q30((1.0 - k / q + k * k) * norm),
    }
}

/// A deterministic, sign-alternating test signal.
fn test_signal(n: usize) -> Vec<i64> {
    (0..n)
        .map(|i| {
            let h = (i as i64).wrapping_mul(2654435761).wrapping_add(12345);
            (h % 65536) - 32768
        })
        .map(|v| v * 16384)
        .collect()
}

#[test]
fn bypass_passes_samples_unchanged() {
    let mut direct = BiquadFilter1::new();
    let mut transposed = BiquadFilter2::new();
    let inputs = [0i64, 1, -1, 42, -987654321, i64::MAX, i64::MIN, 1 << 40];
    for &x in inputs.iter() {
        assert_eq!(direct.process_sample(x), x);
        assert_eq!(transposed.process_sample(x), x);
    }
    let mut block = test_signal(64);
    let expected = block.clone();
    direct.process_block(&mut block);
    assert_eq!(block, expected);
    transposed.process_block(&mut block);
    assert_eq!(block, expected);
}

#[test]
fn default_coefficients_are_bypass() {
    let c: BiquadFilterCoefficients = Default::default();
    assert_eq!(c.a0, COEFF_ONE);
    assert_eq!(c.a1, 0);
    assert_eq!(c.a2, 0);
    assert_eq!(c.b1, 0);
    assert_eq!(c.b2, 0);
}

#[test]
fn forms_agree_over_long_signal() {
    let c = lowpass_coefficients();
    let mut direct = BiquadFilter1::new();
    let mut transposed = BiquadFilter2::new();
    direct.set_coefficients(c);
    transposed.set_coefficients(c);
    let signal = test_signal(1500);
    for &x in signal.iter() {
        let y1 = direct.process_sample(x);
        let y2 = transposed.process_sample(x);
        assert_eq!(y1, y2);
    }
}

#[test]
fn forms_agree_blockwise() {
    let c = lowpass_coefficients();
    let mut direct = BiquadFilter1::new();
    let mut transposed = BiquadFilter2::new();
    direct.set_coefficients(c);
    transposed.set_coefficients(c);
    let mut block_a = test_signal(1024);
    let mut block_b = block_a.clone();
    direct.process_block(&mut block_a);
    transposed.process_block(&mut block_b);
    assert_eq!(block_a, block_b);
}

#[test]
fn large_accumulation_saturates() {
    let mut filter = BiquadFilter1::new();
    filter.set_coefficients(BiquadFilterCoefficients {
        a0: COEFF_LIMIT,
        a1: 0,
        a2: 0,
        b1: 0,
        b2: 0,
    });
    // a gain of 2^10 over unity on a sample near the top of the range
    assert_eq!(filter.process_sample(1 << 60), i64::MAX);
    assert_eq!(filter.process_sample(-(1 << 60)), i64::MIN);
    assert_eq!(filter.process_sample(3), 3 << 10);
}

#[test]
fn reset_restores_bypass_and_clears_state() {
    let c = lowpass_coefficients();
    let mut filter = BiquadFilter2::new();
    filter.set_coefficients(c);
    for &x in test_signal(32).iter() {
        filter.process_sample(x);
    }
    filter.reset();
    assert_eq!(filter.process_sample(123456), 123456);
    let mut direct = BiquadFilter1::new();
    direct.set_coefficients(c);
    for &x in test_signal(32).iter() {
        direct.process_sample(x);
    }
    direct.reset();
    assert_eq!(direct.process_sample(-7890), -7890);
}

#[test]
fn truncation_rounds_toward_zero() {
    // halve each sample: odd inputs truncate toward zero in both signs
    let mut filter = BiquadFilter1::new();
    filter.set_coefficients(BiquadFilterCoefficients {
        a0: COEFF_ONE / 2,
        a1: 0,
        a2: 0,
        b1: 0,
        b2: 0,
    });
    assert_eq!(filter.process_sample(5), 2);
    assert_eq!(filter.process_sample(-5), -2);
}

#[test]
fn clamp_limits_each_field() {
    let mut p = FilterParams::Lowpass { freq: 50, q: 12000 };
    p.clamp((100, 20000), (300, 10000), (-24000, 24000));
    assert_eq!(p, FilterParams::Lowpass { freq: 100, q: 10000 });

    let mut p = FilterParams::Peak { freq: 99999, q: 1, gain: -90000 };
    p.clamp((100, 20000), (300, 10000), (-24000, 24000));
    assert_eq!(p, FilterParams::Peak { freq: 20000, q: 300, gain: -24000 });

    let mut p = FilterParams::HighShelf { freq: 1000, gain: 90000 };
    p.clamp((100, 20000), (300, 10000), (-24000, 24000));
    assert_eq!(p, FilterParams::HighShelf { freq: 1000, gain: 24000 });

    let mut p = FilterParams::Lowpass1p { freq: 5 };
    p.clamp((100, 20000), (300, 10000), (-24000, 24000));
    assert_eq!(p, FilterParams::Lowpass1p { freq: 100 });

    let mut p = FilterParams::Bypass;
    p.clamp((100, 20000), (300, 10000), (-24000, 24000));
    assert_eq!(p, FilterParams::Bypass);
}

#[test]
fn clamp_keeps_in_range_values() {
    let mut p = FilterParams::Bandpass { freq: 1234, q: 700 };
    p.clamp((100, 20000), (300, 10000), (-24000, 24000));
    assert_eq!(p, FilterParams::Bandpass { freq: 1234, q: 700 });
}
