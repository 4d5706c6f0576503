//! The WAV byte format for the analyzer's sample buffers.
//!
//! The canonical persisted form is a 44-byte RIFF/WAVE header announcing
//! two channels of 32-bit IEEE-float samples, followed by the frames: each
//! sample duplicated into both channels, four little-endian bytes per
//! channel. Samples travel as the 32-bit patterns of the float values, so
//! encoding and decoding move bits, never values, and a round trip is exact
//! ([`lemma_wav_round_trip`]). Putting the bytes on disk is the caller's
//! concern.

use vstd::prelude::*;

verus! {

/// Largest number of samples whose stereo frames still fit the 32-bit RIFF
/// size fields.
pub const MAX_WAV_SAMPLES: usize = 536870903;

/// Largest sample rate whose byte-rate field still fits 32 bits.
pub const MAX_WAV_SAMPLE_RATE: u32 = 536870911;

/// Error variants of [`read`].
#[derive(Debug, Clone, Copy, PartialEq, Eq, Structural)]
pub enum WavError {
    /// The input ends before a complete header.
    TooShort,

    /// A header field differs from the canonical mono-as-stereo 32-bit
    /// float layout, or a size field disagrees with the input length.
    BadHeader,

    /// A frame carries different values on its two channels.
    ChannelMismatch,
}

/// A decoded WAV file: the sample rate and one channel's sample bit
/// patterns.
#[derive(Debug)]
pub struct WavData {
    /// Sample rate in Hz.
    pub sample_rate: u32,

    /// The samples, each the bit pattern of one 32-bit float value.
    pub samples: Vec<u32>,
}

/// The four little-endian bytes of a 32-bit value.
pub open spec fn le32(v: u32) -> Seq<u8> {
    seq![
        (v & 0xff) as u8,
        ((v >> 8) & 0xff) as u8,
        ((v >> 16) & 0xff) as u8,
        ((v >> 24) & 0xff) as u8,
    ]
}

/// The two little-endian bytes of a 16-bit value.
pub open spec fn le16(v: u16) -> Seq<u8> {
    seq![(v & 0xff) as u8, ((v >> 8) & 0xff) as u8]
}

/// The 32-bit value carried by four little-endian bytes.
pub open spec fn le32_val(b0: u8, b1: u8, b2: u8, b3: u8) -> u32 {
    (b0 as u32) | ((b1 as u32) << 8) | ((b2 as u32) << 16) | ((b3 as u32) << 24)
}

/// The 16-bit value carried by two little-endian bytes.
pub open spec fn le16_val(b0: u8, b1: u8) -> u16 {
    (b0 as u16) | ((b1 as u16) << 8)
}

/// The 32-bit value starting at byte `i`.
pub open spec fn le32_at(b: Seq<u8>, i: int) -> u32 {
    le32_val(b[i], b[i + 1], b[i + 2], b[i + 3])
}

/// The 16-bit value starting at byte `i`.
pub open spec fn le16_at(b: Seq<u8>, i: int) -> u16 {
    le16_val(b[i], b[i + 1])
}

/// The canonical 44-byte header for `n` stereo frames at the given sample
/// rate: RIFF/WAVE, a 16-byte fmt chunk announcing IEEE float samples
/// (format 3), two channels, 32 bits per sample, and the data chunk header.
pub open spec fn spec_header(sample_rate: u32, n: int) -> Seq<u8> {
    seq![82u8, 73u8, 70u8, 70u8] + le32((36 + 8 * n) as u32) + seq![
        87u8,
        65u8,
        86u8,
        69u8,
        102u8,
        109u8,
        116u8,
        32u8,
    ] + le32(16u32) + le16(3u16) + le16(2u16) + le32(sample_rate) + le32(
        (8 * sample_rate) as u32,
    ) + le16(8u16) + le16(32u16) + seq![100u8, 97u8, 116u8, 97u8] + le32((8 * n) as u32)
}

/// The frame bytes: each sample's four little-endian bytes written twice,
/// once per channel.
pub open spec fn spec_frames(samples: Seq<u32>) -> Seq<u8>
    decreases samples.len(),
{
    if samples.len() == 0 {
        Seq::empty()
    } else {
        le32(samples[0]) + le32(samples[0]) + spec_frames(samples.drop_first())
    }
}

/// The complete canonical encoding.
pub open spec fn spec_encode(sample_rate: u32, samples: Seq<u32>) -> Seq<u8> {
    spec_header(sample_rate, samples.len() as int) + spec_frames(samples)
}

/// Number of frames the data section of `b` carries.
pub open spec fn frame_count(b: Seq<u8>) -> int {
    (b.len() - 44) / 8
}

/// The left-channel value of frame `i`.
pub open spec fn frame_left(b: Seq<u8>, i: int) -> u32 {
    le32_at(b, 44 + 8 * i)
}

/// The right-channel value of frame `i`.
pub open spec fn frame_right(b: Seq<u8>, i: int) -> u32 {
    le32_at(b, 48 + 8 * i)
}

/// Every fixed header byte, field value and size field of the canonical
/// layout is in place and consistent with the input length.
pub open spec fn structural_ok(b: Seq<u8>) -> bool {
    &&& b.len() >= 44
    &&& (b.len() - 44) % 8 == 0
    &&& b[0] == 82 && b[1] == 73 && b[2] == 70 && b[3] == 70
    &&& le32_at(b, 4) == b.len() - 8
    &&& b[8] == 87 && b[9] == 65 && b[10] == 86 && b[11] == 69
    &&& b[12] == 102 && b[13] == 109 && b[14] == 116 && b[15] == 32
    &&& le32_at(b, 16) == 16
    &&& le16_at(b, 20) == 3
    &&& le16_at(b, 22) == 2
    &&& le32_at(b, 28) == 8 * le32_at(b, 24)
    &&& le16_at(b, 32) == 8
    &&& le16_at(b, 34) == 32
    &&& b[36] == 100 && b[37] == 97 && b[38] == 116 && b[39] == 97
    &&& le32_at(b, 40) == b.len() - 44
}

/// Every frame carries the same value on both channels.
pub open spec fn frames_ok(b: Seq<u8>) -> bool {
    forall|i: int| 0 <= i < frame_count(b) ==> #[trigger] frame_left(b, i) == frame_right(b, i)
}

/// `b` is a canonical encoding.
pub open spec fn well_formed(b: Seq<u8>) -> bool {
    structural_ok(b) && frames_ok(b)
}

/// The samples a well-formed encoding carries.
pub open spec fn decoded_samples(b: Seq<u8>) -> Seq<u32> {
    Seq::new(frame_count(b) as nat, |i: int| frame_left(b, i))
}

/// Writes sample data in the canonical WAV form: the returned bytes are
/// the 44-byte header followed by every sample duplicated into a stereo
/// frame.
pub fn write(sample_rate: u32, samples: &Vec<u32>) -> (r: Vec<u8>)
    requires
        sample_rate <= MAX_WAV_SAMPLE_RATE,
        samples@.len() <= MAX_WAV_SAMPLES,
    ensures
        r@ == spec_encode(sample_rate, samples@),
{
    let n = samples.len();
    let mut out: Vec<u8> = Vec::new();
    out.push(82);
    out.push(73);
    out.push(70);
    out.push(70);
    push_le32(&mut out, 36 + 8 * (n as u32));
    out.push(87);
    out.push(65);
    out.push(86);
    out.push(69);
    out.push(102);
    out.push(109);
    out.push(116);
    out.push(32);
    push_le32(&mut out, 16);
    push_le16(&mut out, 3);
    push_le16(&mut out, 2);
    push_le32(&mut out, sample_rate);
    push_le32(&mut out, 8 * sample_rate);
    push_le16(&mut out, 8);
    push_le16(&mut out, 32);
    out.push(100);
    out.push(97);
    out.push(116);
    out.push(97);
    push_le32(&mut out, 8 * (n as u32));
    proof {
        assert(out@ =~= spec_header(sample_rate, n as int));
    }
    let mut i: usize = 0;
    while i < n
        invariant
            i <= n,
            n == samples@.len() <= MAX_WAV_SAMPLES,
            sample_rate <= MAX_WAV_SAMPLE_RATE,
            out@ == spec_header(sample_rate, n as int) + spec_frames(samples@.subrange(0, i as int)),
        decreases n - i,
    {
        let ghost pref = samples@.subrange(0, i as int);
        let v = samples[i];
        push_le32(&mut out, v);
        push_le32(&mut out, v);
        proof {
            lemma_frames_snoc(pref, v);
            assert(samples@.subrange(0, i + 1) =~= pref.push(v));
            assert(out@ =~= spec_header(sample_rate, n as int) + spec_frames(
                samples@.subrange(0, i + 1),
            ));
        }
        i = i + 1;
    }
    proof {
        assert(samples@.subrange(0, n as int) =~= samples@);
    }
    out
}

/// Reads bytes in the canonical WAV form back into the sample rate and one
/// channel's samples. Succeeds exactly on well-formed input: `TooShort`
/// when the header cannot be complete, `BadHeader` when a header field or
/// size disagrees with the canonical layout, `ChannelMismatch` when a
/// frame's two channels differ.
pub fn read(bytes: &Vec<u8>) -> (r: Result<WavData, WavError>)
    ensures
        bytes@.len() < 44 ==> r == Err::<WavData, WavError>(WavError::TooShort),
        bytes@.len() >= 44 && !structural_ok(bytes@) ==> r == Err::<WavData, WavError>(
            WavError::BadHeader,
        ),
        structural_ok(bytes@) && !frames_ok(bytes@) ==> r == Err::<WavData, WavError>(
            WavError::ChannelMismatch,
        ),
        well_formed(bytes@) ==> (r matches Ok(d) && d.sample_rate == le32_at(bytes@, 24)
            && d.samples@ == decoded_samples(bytes@)),
{
    let n = bytes.len();
    if n < 44 {
        return Err(WavError::TooShort);
    }
    if bytes[0] != 82 || bytes[1] != 73 || bytes[2] != 70 || bytes[3] != 70 {
        return Err(WavError::BadHeader);
    }
    if bytes[8] != 87 || bytes[9] != 65 || bytes[10] != 86 || bytes[11] != 69 {
        return Err(WavError::BadHeader);
    }
    if bytes[12] != 102 || bytes[13] != 109 || bytes[14] != 116 || bytes[15] != 32 {
        return Err(WavError::BadHeader);
    }
    if bytes[36] != 100 || bytes[37] != 97 || bytes[38] != 116 || bytes[39] != 97 {
        return Err(WavError::BadHeader);
    }
    if (n - 44) % 8 != 0 {
        return Err(WavError::BadHeader);
    }
    let riff_size = read_le32(bytes, 4);
    if (riff_size as u64) != (n as u64) - 8 {
        return Err(WavError::BadHeader);
    }
    if read_le32(bytes, 16) != 16 {
        return Err(WavError::BadHeader);
    }
    if read_le16(bytes, 20) != 3 {
        return Err(WavError::BadHeader);
    }
    if read_le16(bytes, 22) != 2 {
        return Err(WavError::BadHeader);
    }
    let sample_rate = read_le32(bytes, 24);
    let byte_rate = read_le32(bytes, 28);
    if (byte_rate as u64) != 8 * (sample_rate as u64) {
        return Err(WavError::BadHeader);
    }
    if read_le16(bytes, 32) != 8 {
        return Err(WavError::BadHeader);
    }
    if read_le16(bytes, 34) != 32 {
        return Err(WavError::BadHeader);
    }
    let data_size = read_le32(bytes, 40);
    if (data_size as u64) != (n as u64) - 44 {
        return Err(WavError::BadHeader);
    }
    let count = (n - 44) / 8;
    proof {
        vstd::arithmetic::div_mod::lemma_fundamental_div_mod(n as int - 44, 8);
        assert(structural_ok(bytes@));
    }
    let mut samples: Vec<u32> = Vec::new();
    let mut i: usize = 0;
    while i < count
        invariant
            i <= count,
            count == frame_count(bytes@),
            n == bytes@.len(),
            n >= 44,
            8 * count <= n - 44,
            structural_ok(bytes@),
            samples@.len() == i,
            forall|j: int| 0 <= j < i ==> samples@[j] == frame_left(bytes@, j),
            forall|j: int| 0 <= j < i ==> #[trigger] frame_left(bytes@, j) == frame_right(
                bytes@,
                j,
            ),
        decreases count - i,
    {
        proof {
            assert(8 * (i as int) + 8 <= 8 * count) by (nonlinear_arith)
                requires
                    i < count,
            ;
        }
        let off = 44 + 8 * i;
        let left = read_le32(bytes, off);
        let right = read_le32(bytes, off + 4);
        if left != right {
            proof {
                assert(frame_left(bytes@, i as int) != frame_right(bytes@, i as int));
                assert(!frames_ok(bytes@));
            }
            return Err(WavError::ChannelMismatch);
        }
        samples.push(left);
        i = i + 1;
    }
    proof {
        assert(frames_ok(bytes@));
        assert(samples@ =~= decoded_samples(bytes@));
    }
    Ok(WavData { sample_rate, samples })
}

/// Reading back the four little-endian bytes of `v` yields `v`.
pub proof fn lemma_le32_round_trip(v: u32)
    ensures
        le32_val(le32(v)[0], le32(v)[1], le32(v)[2], le32(v)[3]) == v,
{
    assert(((v & 0xff) as u8 as u32) | (((v >> 8) & 0xff) as u8 as u32) << 8 | (((v >> 16)
        & 0xff) as u8 as u32) << 16 | (((v >> 24) & 0xff) as u8 as u32) << 24 == v)
        by (bit_vector);
}

/// Reading back the two little-endian bytes of `v` yields `v`.
pub proof fn lemma_le16_round_trip(v: u16)
    ensures
        le16_val(le16(v)[0], le16(v)[1]) == v,
{
    assert(((v & 0xff) as u8 as u16) | (((v >> 8) & 0xff) as u8 as u16) << 8 == v)
        by (bit_vector);
}

/// Reading back an encoding reproduces what was encoded: the canonical
/// bytes of any sample buffer are well formed, and decoding them yields the
/// original sample rate and the original bit patterns, bit for bit.
#[verifier::rlimit(100)]
pub proof fn lemma_wav_round_trip(sample_rate: u32, samples: Seq<u32>)
    requires
        sample_rate <= MAX_WAV_SAMPLE_RATE,
        samples.len() <= MAX_WAV_SAMPLES,
    ensures
        well_formed(spec_encode(sample_rate, samples)),
        le32_at(spec_encode(sample_rate, samples), 24) == sample_rate,
        decoded_samples(spec_encode(sample_rate, samples)) == samples,
{
    let b = spec_encode(sample_rate, samples);
    let n = samples.len() as int;
    lemma_frames_len(samples);
    assert(b.len() == 44 + 8 * n);
    vstd::arithmetic::div_mod::lemma_mod_multiples_basic(n, 8);
    lemma_le32_round_trip((36 + 8 * n) as u32);
    lemma_le32_round_trip(16u32);
    lemma_le16_round_trip(3u16);
    lemma_le16_round_trip(2u16);
    lemma_le32_round_trip(sample_rate);
    lemma_le32_round_trip((8 * sample_rate) as u32);
    lemma_le16_round_trip(8u16);
    lemma_le16_round_trip(32u16);
    lemma_le32_round_trip((8 * n) as u32);
    vstd::arithmetic::div_mod::lemma_div_by_multiple(n, 8);
    assert(frame_count(b) == n);
    assert forall|i: int| 0 <= i < n implies #[trigger] frame_left(b, i) == samples[i]
        && frame_right(b, i) == samples[i] by {
        lemma_frames_index(samples, i);
        lemma_le32_round_trip(samples[i]);
        assert(b[44 + 8 * i] == spec_frames(samples)[8 * i]);
        assert(b[44 + 8 * i + 1] == spec_frames(samples)[8 * i + 1]);
        assert(b[44 + 8 * i + 2] == spec_frames(samples)[8 * i + 2]);
        assert(b[44 + 8 * i + 3] == spec_frames(samples)[8 * i + 3]);
        assert(b[48 + 8 * i] == spec_frames(samples)[8 * i + 4]);
        assert(b[48 + 8 * i + 1] == spec_frames(samples)[8 * i + 5]);
        assert(b[48 + 8 * i + 2] == spec_frames(samples)[8 * i + 6]);
        assert(b[48 + 8 * i + 3] == spec_frames(samples)[8 * i + 7]);
    }
    assert(decoded_samples(b) =~= samples);
}

/// Appends the two little-endian bytes of `v`.
fn push_le16(out: &mut Vec<u8>, v: u16)
    ensures
        final(out)@ == old(out)@ + le16(v),
{
    out.push((v & 0xff) as u8);
    out.push(((v >> 8) & 0xff) as u8);
    proof {
        assert(out@ =~= old(out)@ + le16(v));
    }
}

/// Appends the four little-endian bytes of `v`.
fn push_le32(out: &mut Vec<u8>, v: u32)
    ensures
        final(out)@ == old(out)@ + le32(v),
{
    out.push((v & 0xff) as u8);
    out.push(((v >> 8) & 0xff) as u8);
    out.push(((v >> 16) & 0xff) as u8);
    out.push(((v >> 24) & 0xff) as u8);
    proof {
        assert(out@ =~= old(out)@ + le32(v));
    }
}

/// Reads the 32-bit value starting at byte `i`.
fn read_le32(bytes: &Vec<u8>, i: usize) -> (r: u32)
    requires
        i + 4 <= bytes@.len(),
    ensures
        r == le32_at(bytes@, i as int),
{
    let n = bytes.len();
    (bytes[i] as u32) | ((bytes[i + 1] as u32) << 8) | ((bytes[i + 2] as u32) << 16) | ((bytes[i
        + 3] as u32) << 24)
}

/// Reads the 16-bit value starting at byte `i`.
fn read_le16(bytes: &Vec<u8>, i: usize) -> (r: u16)
    requires
        i + 2 <= bytes@.len(),
    ensures
        r == le16_at(bytes@, i as int),
{
    let n = bytes.len();
    (bytes[i] as u16) | ((bytes[i + 1] as u16) << 8)
}

/// One more sample appends one more stereo frame.
proof fn lemma_frames_snoc(xs: Seq<u32>, x: u32)
    ensures
        spec_frames(xs.push(x)) == spec_frames(xs) + le32(x) + le32(x),
    decreases xs.len(),
{
    if xs.len() == 0 {
        assert(xs.push(x)[0] == x);
        assert(xs.push(x).drop_first() =~= Seq::<u32>::empty());
        assert(spec_frames(Seq::<u32>::empty()) =~= Seq::<u8>::empty());
        assert(spec_frames(xs.push(x)) == le32(x) + le32(x) + spec_frames(
            xs.push(x).drop_first(),
        ));
        assert(spec_frames(xs.push(x)) =~= spec_frames(xs) + le32(x) + le32(x));
    } else {
        assert(xs.push(x)[0] == xs[0]);
        assert(xs.push(x).drop_first() =~= xs.drop_first().push(x));
        lemma_frames_snoc(xs.drop_first(), x);
        assert(spec_frames(xs.push(x)) == le32(xs[0]) + le32(xs[0]) + spec_frames(
            xs.drop_first().push(x),
        ));
        assert(spec_frames(xs.drop_first().push(x)) == spec_frames(xs.drop_first()) + le32(x)
            + le32(x));
        assert(spec_frames(xs) == le32(xs[0]) + le32(xs[0]) + spec_frames(xs.drop_first()));
        assert(spec_frames(xs.push(x)) =~= spec_frames(xs) + le32(x) + le32(x));
    }
}

/// The frame bytes of `n` samples are `8 * n` bytes long.
proof fn lemma_frames_len(xs: Seq<u32>)
    ensures
        spec_frames(xs).len() == 8 * xs.len(),
    decreases xs.len(),
{
    if xs.len() != 0 {
        lemma_frames_len(xs.drop_first());
    }
}

/// Where each byte of frame `i` sits inside the frame bytes.
proof fn lemma_frames_index(xs: Seq<u32>, i: int)
    requires
        0 <= i < xs.len(),
    ensures
        spec_frames(xs)[8 * i] == le32(xs[i])[0],
        spec_frames(xs)[8 * i + 1] == le32(xs[i])[1],
        spec_frames(xs)[8 * i + 2] == le32(xs[i])[2],
        spec_frames(xs)[8 * i + 3] == le32(xs[i])[3],
        spec_frames(xs)[8 * i + 4] == le32(xs[i])[0],
        spec_frames(xs)[8 * i + 5] == le32(xs[i])[1],
        spec_frames(xs)[8 * i + 6] == le32(xs[i])[2],
        spec_frames(xs)[8 * i + 7] == le32(xs[i])[3],
    decreases i,
{
    lemma_frames_len(xs);
    if i == 0 {
    } else {
        lemma_frames_index(xs.drop_first(), i - 1);
        lemma_frames_len(xs.drop_first());
    }
}

} // verus!
