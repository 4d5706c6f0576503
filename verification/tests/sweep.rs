//! Behavioral checks for the sweep generator: error protocol, determinism,
//! the exact integer trajectory, and the amplitude bound of the evaluated
//! samples.

use dsp_analyze::{SweepError, SweepGenerator};

fn zeros(n: usize) -> Vec<u64> {
    vec![0u64; n]
}

#[test]
fn process_before_start_fails() {
    let mut gen = SweepGenerator::new(48000);
    let mut buf = zeros(8);
    assert_eq!(gen.process(&mut buf), Err(SweepError::NotStarted));
    assert!(buf.iter().all(|&v| v == 0));
}

#[test]
fn restart_reproduces_sequence() {
    let mut gen = SweepGenerator::new(2000);
    gen.set_range(100, 200);
    gen.set_time(500);
    gen.start();
    let mut first: Vec<u64> = Vec::new();
    let mut buf = zeros(64);
    for _ in 0..4 {
        assert_eq!(gen.process(&mut buf), Ok(()));
        first.extend_from_slice(&buf);
    }
    gen.start();
    let mut second: Vec<u64> = Vec::new();
    for _ in 0..4 {
        assert_eq!(gen.process(&mut buf), Ok(()));
        second.extend_from_slice(&buf);
    }
    assert_eq!(first, second);
}

#[test]
fn exact_trajectory_small_config() {
    let mut gen = SweepGenerator::new(1000);
    gen.set_range(1, 2);
    gen.start();
    let mut buf = zeros(3);
    assert_eq!(gen.process(&mut buf), Ok(()));
    // phase fractions over 1000^2 * 1000: 0, then +freq steps of the ramp
    assert_eq!(buf[0], 0);
    assert_eq!(buf[1], 1000000);
    assert_eq!(buf[2], 2001000);
}

#[test]
fn max_freq_reached_ends_sweep() {
    // 101 samples fit the ramp: the frequency exceeds the maximum at the
    // 102nd probe
    let mut gen = SweepGenerator::new(100);
    gen.set_range(10, 20);
    gen.start();
    let mut buf = zeros(50);
    assert_eq!(gen.process(&mut buf), Ok(()));
    assert_eq!(gen.process(&mut buf), Ok(()));
    let mut tail = zeros(50);
    assert_eq!(gen.process(&mut tail), Err(SweepError::MaxFreqReached));
    // the generator deactivated: it must be restarted
    assert_eq!(gen.process(&mut tail), Err(SweepError::NotStarted));
    gen.start();
    assert_eq!(gen.process(&mut buf), Ok(()));
}

#[test]
fn constant_range_never_ends() {
    let mut gen = SweepGenerator::new(1000);
    gen.set_range(440, 440);
    gen.start();
    let mut buf = zeros(256);
    for _ in 0..8 {
        assert_eq!(gen.process(&mut buf), Ok(()));
    }
}

#[test]
fn inverted_range_is_exhausted_immediately() {
    let mut gen = SweepGenerator::new(1000);
    gen.set_range(2000, 100);
    gen.start();
    let mut buf = zeros(4);
    assert_eq!(gen.process(&mut buf), Err(SweepError::MaxFreqReached));
}

#[test]
fn phases_stay_below_denominator() {
    let mut gen = SweepGenerator::new(3000);
    gen.set_range(20, 2000);
    gen.set_time(200);
    gen.start();
    let den = gen.phase_den();
    let mut buf = zeros(128);
    while gen.process(&mut buf) == Ok(()) {
        assert!(buf.iter().all(|&p| p < den));
    }
}

#[test]
fn samples_stay_within_gain() {
    let mut gen = SweepGenerator::new(4000);
    gen.set_range(10, 1900);
    gen.set_gain(250);
    gen.start();
    let gain = gen.gain_milli() as f64 / 1000.0;
    let den = gen.phase_den() as f64;
    let tau = std::f64::consts::TAU;
    let mut buf = zeros(64);
    while gen.process(&mut buf) == Ok(()) {
        for &p in buf.iter() {
            let sample = ((p as f64) / den * tau).sin() * gain;
            assert!(sample.abs() <= gain + 1e-9);
        }
    }
}

#[test]
fn setters_take_effect_before_start() {
    let mut gen = SweepGenerator::new(8000);
    gen.set_gain(500);
    assert_eq!(gen.gain_milli(), 500);
    assert_eq!(gen.sample_rate(), 8000);
    gen.set_time(2000);
    assert_eq!(gen.phase_den(), 8000u64 * 8000 * 2000);
}
