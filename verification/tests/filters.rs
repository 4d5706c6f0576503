//! Frequency-response checks for every filter variant: each test sweeps the
//! device under test with the standard excitation signal, estimates the
//! magnitude response by spectral division, and checks the response shape at
//! well-excited bins.

use dsp_analyze::biquad::{BiquadFilter2, BiquadFilterCoefficients, FilterParams};
use dsp_analyze::bode;

const SAMPLE_RATE: f64 = 48000.0;

/// Block size in samples.
const BLOCK_SIZE: usize = 16;

fn q30(x: f64) -> i64 {
    (x * 1073741824.0).round() as i64
}

fn coeffs(a0: f64, a1: f64, a2: f64, b1: f64, b2: f64) -> BiquadFilterCoefficients {
    BiquadFilterCoefficients {
        a0: q30(a0),
        a1: q30(a1),
        a2: q30(a2),
        b1: q30(b1),
        b2: q30(b2),
    }
}

/// The textbook coefficient formulas (tangent pre-warping, gain-sign
/// branching for peak and shelf responses), evaluated in floating point and
/// quantized to the library's fixed-point format.
fn coefficients_for(params: &FilterParams, sample_rate: f64) -> BiquadFilterCoefficients {
    let st = 1.0 / sample_rate;
    let pi = std::f64::consts::PI;
    match *params {
        FilterParams::Bypass => coeffs(1.0, 0.0, 0.0, 0.0, 0.0),
        FilterParams::Lowpass { freq, q } => {
            let (freq, q) = (freq as f64, q as f64 / 1000.0);
            let k = (pi * freq * st).tan();
            let norm = 1.0 / (1.0 + k / q + k * k);
            let a0 = k * k * norm;
            coeffs(
                a0,
                2.0 * a0,
                a0,
                2.0 * (k * k - 1.0) * norm,
                (1.0 - k / q + k * k) * norm,
            )
        }
        FilterParams::Highpass { freq, q } => {
            let (freq, q) = (freq as f64, q as f64 / 1000.0);
            let k = (pi * freq * st).tan();
            let norm = 1.0 / (1.0 + k / q + k * k);
            coeffs(
                norm,
                -2.0 * norm,
                norm,
                2.0 * (k * k - 1.0) * norm,
                (1.0 - k / q + k * k) * norm,
            )
        }
        FilterParams::Bandpass { freq, q } => {
            let (freq, q) = (freq as f64, q as f64 / 1000.0);
            let k = (pi * freq * st).tan();
            let norm = 1.0 / (1.0 + k / q + k * k);
            let a0 = k / q * norm;
            coeffs(
                a0,
                0.0,
                -a0,
                2.0 * (k * k - 1.0) * norm,
                (1.0 - k / q + k * k) * norm,
            )
        }
        FilterParams::Notch { freq, q } => {
            let (freq, q) = (freq as f64, q as f64 / 1000.0);
            let k = (pi * freq * st).tan();
            let norm = 1.0 / (1.0 + k / q + k * k);
            let a0 = (1.0 + k * k) * norm;
            let a1 = 2.0 * (k * k - 1.0) * norm;
            coeffs(a0, a1, a0, a1, (1.0 - k / q + k * k) * norm)
        }
        FilterParams::Peak { freq, q, gain } => {
            let (freq, q, gain) = (freq as f64, q as f64 / 1000.0, gain as f64 / 1000.0);
            let k = (pi * freq * st).tan();
            let v = 10.0f64.powf(gain.abs() / 20.0);
            if gain >= 0.0 {
                let norm = 1.0 / (1.0 + 1.0 / q * k + k * k);
                let a1 = 2.0 * (k * k - 1.0) * norm;
                coeffs(
                    (1.0 + v / q * k + k * k) * norm,
                    a1,
                    (1.0 - v / q * k + k * k) * norm,
                    a1,
                    (1.0 - 1.0 / q * k + k * k) * norm,
                )
            } else {
                let norm = 1.0 / (1.0 + v / q * k + k * k);
                let a1 = 2.0 * (k * k - 1.0) * norm;
                coeffs(
                    (1.0 + 1.0 / q * k + k * k) * norm,
                    a1,
                    (1.0 - 1.0 / q * k + k * k) * norm,
                    a1,
                    (1.0 - v / q * k + k * k) * norm,
                )
            }
        }
        FilterParams::LowShelf { freq, gain } => {
            let (freq, gain) = (freq as f64, gain as f64 / 1000.0);
            let k = (pi * freq * st).tan();
            let v = 10.0f64.powf(gain.abs() / 20.0);
            let sqrt2 = 2.0f64.sqrt();
            if gain >= 0.0 {
                let norm = 1.0 / (1.0 + sqrt2 * k + k * k);
                coeffs(
                    (1.0 + (2.0 * v).sqrt() * k + v * k * k) * norm,
                    2.0 * (v * k * k - 1.0) * norm,
                    (1.0 - (2.0 * v).sqrt() * k + v * k * k) * norm,
                    2.0 * (k * k - 1.0) * norm,
                    (1.0 - sqrt2 * k + k * k) * norm,
                )
            } else {
                let norm = 1.0 / (1.0 + (2.0 * v).sqrt() * k + v * k * k);
                coeffs(
                    (1.0 + sqrt2 * k + k * k) * norm,
                    2.0 * (k * k - 1.0) * norm,
                    (1.0 - sqrt2 * k + k * k) * norm,
                    2.0 * (v * k * k - 1.0) * norm,
                    (1.0 - (2.0 * v).sqrt() * k + v * k * k) * norm,
                )
            }
        }
        FilterParams::HighShelf { freq, gain } => {
            let (freq, gain) = (freq as f64, gain as f64 / 1000.0);
            let k = (pi * freq * st).tan();
            let v = 10.0f64.powf(gain.abs() / 20.0);
            let sqrt2 = 2.0f64.sqrt();
            if gain >= 0.0 {
                let norm = 1.0 / (1.0 + sqrt2 * k + k * k);
                coeffs(
                    (v + (2.0 * v).sqrt() * k + k * k) * norm,
                    2.0 * (k * k - v) * norm,
                    (v - (2.0 * v).sqrt() * k + k * k) * norm,
                    2.0 * (k * k - 1.0) * norm,
                    (1.0 - sqrt2 * k + k * k) * norm,
                )
            } else {
                let norm = 1.0 / (v + (2.0 * v).sqrt() * k + k * k);
                coeffs(
                    (1.0 + sqrt2 * k + k * k) * norm,
                    2.0 * (k * k - 1.0) * norm,
                    (1.0 - sqrt2 * k + k * k) * norm,
                    2.0 * (k * k - v) * norm,
                    (v - (2.0 * v).sqrt() * k + k * k) * norm,
                )
            }
        }
        FilterParams::Allpass { freq, q } => {
            let (freq, q) = (freq as f64, q as f64 / 1000.0);
            let k = (pi * freq * st).tan();
            let div_q = 1.0 / q;
            let norm = 1.0 / (1.0 + k * div_q + k * k);
            let a0 = (1.0 - k * div_q + k * k) * norm;
            let a1 = 2.0 * (k * k - 1.0) * norm;
            coeffs(a0, a1, 1.0, a1, a0)
        }
        FilterParams::Lowpass1p { freq } => {
            let freq = freq as f64;
            let b1 = (-2.0 * pi * freq * st).exp();
            coeffs(1.0 - b1, 0.0, 0.0, -b1, 0.0)
        }
        FilterParams::Lowpass1p1z { freq } => {
            let freq = freq as f64;
            let k = (pi * freq * st).tan();
            let norm = 1.0 / (1.0 / k + 1.0);
            coeffs(norm, norm, 0.0, (1.0 - 1.0 / k) * norm, 0.0)
        }
        FilterParams::Highpass1p1z { freq } => {
            let freq = freq as f64;
            let k = (pi * freq * st).tan();
            let norm = 1.0 / (k + 1.0);
            coeffs(norm, -norm, 0.0, (k - 1.0) * norm, 0.0)
        }
        FilterParams::LowShelf1st { freq, gain } => {
            let (freq, gain) = (freq as f64, gain as f64 / 1000.0);
            let k = (pi * freq * st).tan();
            let v = 10.0f64.powf(gain.abs() / 20.0);
            if gain >= 0.0 {
                let norm = 1.0 / (k + 1.0);
                coeffs(
                    (k * v + 1.0) * norm,
                    (k * v - 1.0) * norm,
                    0.0,
                    (k - 1.0) * norm,
                    0.0,
                )
            } else {
                let norm = 1.0 / (k * v + 1.0);
                coeffs(
                    (k + 1.0) * norm,
                    (k - 1.0) * norm,
                    0.0,
                    (k * v - 1.0) * norm,
                    0.0,
                )
            }
        }
        FilterParams::HighShelf1st { freq, gain } => {
            let (freq, gain) = (freq as f64, gain as f64 / 1000.0);
            let k = (pi * freq * st).tan();
            let v = 10.0f64.powf(gain.abs() / 20.0);
            if gain >= 0.0 {
                let norm = 1.0 / (k + 1.0);
                coeffs(
                    (k + v) * norm,
                    (k - v) * norm,
                    0.0,
                    (k - 1.0) * norm,
                    0.0,
                )
            } else {
                let norm = 1.0 / (k + v);
                coeffs(
                    (k + 1.0) * norm,
                    (k - 1.0) * norm,
                    0.0,
                    (k - v) * norm,
                    0.0,
                )
            }
        }
    }
}

/// Runs the standard sweep through the filter block by block and returns the
/// per-bin magnitude of the estimated transfer function in dB.
fn magnitude_response(filter: &mut BiquadFilter2, sample_rate: u32, block_size: usize) -> Vec<f32> {
    let ticks = bode::sweep_phases(sample_rate);
    let den = (sample_rate as f64) * (sample_rate as f64) * 1000.0;
    let tau = std::f64::consts::TAU;
    let input: Vec<f32> = ticks
        .iter()
        .map(|&p| ((p as f64) / den * tau).sin() as f32)
        .collect();
    let mut fixed: Vec<i64> = input
        .iter()
        .map(|&x| ((x as f64) * 1073741824.0).round() as i64)
        .collect();
    let plan = bode::chunk_bounds(fixed.len(), block_size);
    for &(start, len) in plan.iter() {
        let mut chunk: Vec<i64> = fixed[start..start + len].to_vec();
        filter.process_block(&mut chunk);
        fixed[start..start + len].copy_from_slice(&chunk);
    }
    let output: Vec<f32> = fixed
        .iter()
        .map(|&y| ((y as f64) / 1073741824.0) as f32)
        .collect();
    let in_spectrum = fft(&input);
    let out_spectrum = fft(&output);
    in_spectrum
        .iter()
        .zip(out_spectrum.iter())
        .map(|(i, o)| 20.0 * f32::log10((o / i).norm()))
        .collect()
}

fn fft(indata: &[f32]) -> Vec<realfft::num_complex::Complex<f32>> {
    let mut planner = realfft::RealFftPlanner::<f32>::new();
    let r2c = planner.plan_fft_forward(indata.len());
    let mut spectrum = r2c.make_output_vec();
    let mut indata = indata.to_owned();
    r2c.process(&mut indata, &mut spectrum).unwrap();
    spectrum
}

fn filter_with(params: FilterParams) -> BiquadFilter2 {
    let mut filter = BiquadFilter2::new();
    filter.set_coefficients(coefficients_for(&params, SAMPLE_RATE));
    filter
}

#[test]
fn lowpass() {
    let mut filter = filter_with(FilterParams::Lowpass { freq: 1000, q: 700 });
    let mags = magnitude_response(&mut filter, 48000, BLOCK_SIZE);
    let bin = bode::nearest_bin(1000, 48000, 48000);
    assert!(mags[bin] < 0.0);
    assert!(mags[100].abs() < 1.0);
    assert!(mags[10000] < -30.0);
}

#[test]
fn highpass() {
    let mut filter = filter_with(FilterParams::Highpass { freq: 1000, q: 700 });
    let mags = magnitude_response(&mut filter, 48000, BLOCK_SIZE);
    assert!(mags[100] < -30.0);
    assert!(mags[10000].abs() < 1.0);
}

#[test]
fn bandpass() {
    let mut filter = filter_with(FilterParams::Bandpass { freq: 1000, q: 700 });
    let mags = magnitude_response(&mut filter, 48000, BLOCK_SIZE);
    let bin = bode::nearest_bin(1000, 48000, 48000);
    assert!(mags[bin].abs() < 1.0);
    assert!(mags[100] < -10.0);
    assert!(mags[10000] < -10.0);
}

#[test]
fn peak() {
    let mut filter = filter_with(FilterParams::Peak { freq: 1000, q: 700, gain: 20000 });
    let mags = magnitude_response(&mut filter, 48000, BLOCK_SIZE);
    let bin = bode::nearest_bin(1000, 48000, 48000);
    assert!((mags[bin] - 20.0).abs() < 1.0);
    assert!(mags[100] < 5.0);
}

#[test]
fn lowshelf() {
    let mut filter = filter_with(FilterParams::LowShelf { freq: 1000, gain: 20000 });
    let mags = magnitude_response(&mut filter, 48000, BLOCK_SIZE);
    assert!((mags[100] - 20.0).abs() < 1.5);
    assert!(mags[10000].abs() < 1.0);
}

#[test]
fn highshelf() {
    let mut filter = filter_with(FilterParams::HighShelf { freq: 1000, gain: 20000 });
    let mags = magnitude_response(&mut filter, 48000, BLOCK_SIZE);
    assert!((mags[10000] - 20.0).abs() < 1.5);
    assert!(mags[100].abs() < 1.0);
}

#[test]
fn notch() {
    let mut filter = filter_with(FilterParams::Notch { freq: 1000, q: 700 });
    let mags = magnitude_response(&mut filter, 48000, BLOCK_SIZE);
    let bin = bode::nearest_bin(1000, 48000, 48000);
    assert!(mags[bin] < -20.0);
    assert!(mags[100].abs() < 1.0);
    assert!(mags[10000].abs() < 1.0);
}

#[test]
fn allpass() {
    let mut filter = filter_with(FilterParams::Allpass { freq: 1000, q: 700 });
    let mags = magnitude_response(&mut filter, 48000, BLOCK_SIZE);
    assert!(mags[100].abs() < 0.5);
    assert!(mags[1000].abs() < 0.5);
    assert!(mags[10000].abs() < 0.5);
}

#[test]
fn lowpass1p() {
    let mut filter = filter_with(FilterParams::Lowpass1p { freq: 1000 });
    let mags = magnitude_response(&mut filter, 48000, BLOCK_SIZE);
    let bin = bode::nearest_bin(1000, 48000, 48000);
    assert!((mags[bin] + 3.01).abs() < 1.0);
    assert!(mags[10000] < -10.0);
}

#[test]
fn lowpass1p1z() {
    let mut filter = filter_with(FilterParams::Lowpass1p1z { freq: 1000 });
    let mags = magnitude_response(&mut filter, 48000, BLOCK_SIZE);
    let bin = bode::nearest_bin(1000, 48000, 48000);
    assert!((mags[bin] + 3.01).abs() < 1.0);
    assert!(mags[10000] < -15.0);
}

#[test]
fn highpass1p1z() {
    let mut filter = filter_with(FilterParams::Highpass1p1z { freq: 1000 });
    let mags = magnitude_response(&mut filter, 48000, BLOCK_SIZE);
    let bin = bode::nearest_bin(1000, 48000, 48000);
    assert!((mags[bin] + 3.01).abs() < 1.0);
    assert!(mags[100] < -15.0);
}

#[test]
fn lowshelf1st() {
    let mut filter = filter_with(FilterParams::LowShelf1st { freq: 1000, gain: 20000 });
    let mags = magnitude_response(&mut filter, 48000, BLOCK_SIZE);
    assert!((mags[100] - 20.0).abs() < 1.5);
    // a first-order shelf has a wide transition: well above the corner the
    // boost has faded but not yet vanished
    assert!(mags[10000] < 5.0);
    assert!(mags[100] - mags[10000] > 10.0);
}

#[test]
fn highshelf1st() {
    let mut filter = filter_with(FilterParams::HighShelf1st { freq: 1000, gain: 20000 });
    let mags = magnitude_response(&mut filter, 48000, BLOCK_SIZE);
    assert!((mags[10000] - 20.0).abs() < 1.5);
    // the wide first-order transition leaves a little boost well below the
    // corner
    assert!(mags[100] < 5.0);
    assert!(mags[10000] - mags[100] > 10.0);
}

#[test]
fn lowpass_cutoff_is_minus_three_db() {
    let mut filter = filter_with(FilterParams::Lowpass { freq: 1000, q: 707 });
    let mags = magnitude_response(&mut filter, 48000, BLOCK_SIZE);
    let bin = bode::nearest_bin(1000, 48000, 48000);
    assert!((mags[bin] - (-3.01)).abs() < 0.5);
}

#[test]
fn lowpass_scenario_rolloff() {
    let mut filter = filter_with(FilterParams::Lowpass { freq: 1000, q: 700 });
    let mags = magnitude_response(&mut filter, 48000, BLOCK_SIZE);
    let cutoff_bin = bode::nearest_bin(1000, 48000, 48000);
    assert!(mags[cutoff_bin] < 0.0);
    // beyond 3-4x the cutoff bin the response keeps falling
    let probes = [4000usize, 5000, 6500, 8000, 10000, 13000, 16000];
    for pair in probes.windows(2) {
        assert!(mags[pair[0]] > mags[pair[1]]);
    }
}

#[test]
fn notch_scenario_local_minimum() {
    let mut filter = filter_with(FilterParams::Notch { freq: 1000, q: 700 });
    let mags = magnitude_response(&mut filter, 48000, BLOCK_SIZE);
    let bin = bode::nearest_bin(1000, 48000, 48000);
    // the notch floor sits below the surrounding skirt
    assert!(mags[bin] <= mags[bin - 20]);
    assert!(mags[bin] <= mags[bin + 20]);
    // at least 10 dB below the bins an octave away on either side
    assert!(mags[bin] < mags[500] - 10.0);
    assert!(mags[bin] < mags[2000] - 10.0);
}
