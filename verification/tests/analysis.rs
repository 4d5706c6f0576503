//! Checks for the analyzer support pieces: configuration defaults, the
//! excitation length, the block layout, and bin arithmetic.

use dsp_analyze::bode;
use dsp_analyze::FftAnalyzerConfig;

#[test]
fn default_config() {
    let c = FftAnalyzerConfig::default();
    assert_eq!(c.sample_rate, 48000);
    assert_eq!(c.block_size, 64);
}

#[test]
fn sweep_length_matches_one_second() {
    // one second at 48 kHz admits 48001 probes; whole batches of 16 keep
    // exactly 48000 samples
    let ticks = bode::sweep_phases(48000);
    assert_eq!(ticks.len(), 48000);
    assert_eq!(ticks[0], 0);
}

#[test]
fn sweep_length_discards_partial_batch() {
    // 101 probes fit; six whole batches of 16 survive
    let ticks = bode::sweep_phases(100);
    assert_eq!(ticks.len(), 96);
}

#[test]
fn chunk_layout_even() {
    let plan = bode::chunk_bounds(64, 16);
    assert_eq!(plan, vec![(0, 16), (16, 16), (32, 16), (48, 16)]);
}

#[test]
fn chunk_layout_short_final_block() {
    let plan = bode::chunk_bounds(50, 16);
    assert_eq!(plan, vec![(0, 16), (16, 16), (32, 16), (48, 2)]);
}

#[test]
fn chunk_layout_single_short_block() {
    assert_eq!(bode::chunk_bounds(5, 16), vec![(0, 5)]);
}

#[test]
fn chunk_layout_empty() {
    assert_eq!(bode::chunk_bounds(0, 16), Vec::<(usize, usize)>::new());
}

#[test]
fn nearest_bin_at_one_hertz_resolution() {
    // a one-second transform at 48 kHz puts bin k at k Hz
    assert_eq!(bode::nearest_bin(1000, 48000, 48000), 1000);
    assert_eq!(bode::nearest_bin(0, 48000, 48000), 0);
    assert_eq!(bode::nearest_bin(23999, 48000, 48000), 23999);
}

#[test]
fn nearest_bin_rounds_to_nearest() {
    // 4800 samples at 48 kHz: bins are 10 Hz apart
    assert_eq!(bode::nearest_bin(1004, 48000, 4800), 100);
    assert_eq!(bode::nearest_bin(1005, 48000, 4800), 101);
    assert_eq!(bode::nearest_bin(996, 48000, 4800), 100);
}
