//! Encoding of a drained recording as a mono 16-bit PCM WAVE clip.
use vstd::prelude::*;

verus! {

/// Sample rate assumed when a session never recorded one.
pub const DEFAULT_SAMPLE_RATE: u32 = 44100;

/// Channels of an encoded clip: the capture is mono.
pub const CLIP_CHANNELS: u16 = 1;

/// Bits per sample of an encoded clip.
pub const CLIP_BITS: u16 = 16;

/// Bytes of a WAVE header with a plain PCM format chunk.
pub const WAV_HEADER_BYTES: u64 = 44;

/// Bytes that the RIFF size field counts besides the data: the whole header
/// but for the RIFF tag and the size field itself.
pub const RIFF_SIZE_OVERHEAD: u64 = 36;

/// `v` as two little-endian bytes.
pub open spec fn le16(v: int) -> Seq<u8> {
    seq![(v % 256) as u8, ((v / 256) % 256) as u8]
}

/// `v` as four little-endian bytes.
pub open spec fn le32(v: int) -> Seq<u8> {
    seq![(v % 256) as u8, ((v / 0x100) % 256) as u8, ((v / 0x1_0000) % 256) as u8, ((v / 0x100_0000) % 256) as u8]
}

/// The 16-bit two's complement pattern of a sample.
pub open spec fn sample_bits(s: i16) -> int {
    if s < 0 {
        s + 0x1_0000
    } else {
        s as int
    }
}

/// The data section of a clip: each sample as two little-endian bytes, in order.
pub open spec fn pcm_bytes(samples: Seq<i16>) -> Seq<u8>
    decreases samples.len(),
{
    if samples.len() == 0 {
        Seq::<u8>::empty()
    } else {
        pcm_bytes(samples.drop_last()) + le16(sample_bits(samples.last()))
    }
}

/// The 44-byte header of a mono 16-bit integer PCM WAVE file of `n` samples
/// at `rate`: the RIFF chunk, a 16-byte `fmt ` chunk, and the `data` chunk
/// header.
pub open spec fn wav_header(n: nat, rate: u32) -> Seq<u8> {
    seq![0x52u8, 0x49, 0x46, 0x46] + le32(36 + 2 * n as int)
        + seq![0x57u8, 0x41, 0x56, 0x45] + seq![0x66u8, 0x6d, 0x74, 0x20]
        + le32(16) + le16(1) + le16(1) + le32(rate as int) + le32(2 * rate) + le16(2) + le16(16)
        + seq![0x64u8, 0x61, 0x74, 0x61] + le32(2 * n as int)
}

/// The clip of `samples` as this library encodes it: mono, 16-bit, at `rate`.
pub open spec fn clip_of(samples: Seq<i16>, rate: u32) -> Seq<u8> {
    wav_header(samples.len(), rate) + pcm_bytes(samples)
}

/// Whether a clip of `len` samples at `rate` can be written as a WAVE file:
/// the rate is positive, and the byte rate, the RIFF size (36 + 2n) and the
/// data size (2n) fit the format's 32-bit fields.
pub open spec fn clip_fits(len: nat, rate: u32) -> bool {
    &&& rate > 0
    &&& rate as int * 2 <= u32::MAX
    &&& RIFF_SIZE_OVERHEAD + 2 * len <= u32::MAX
}

#[verifier::external_type_specification]
#[verifier::external_body]
pub struct ExHoundError(hound::Error);

/// Relies on hound::WavWriter (new, write_sample, finalize) writing a mono
/// integer PCM file into an in-memory cursor. For one channel and 16 bits
/// hound writes the plain 44-byte PCM header, then each `i16` as two
/// little-endian bytes, then patches the two length fields; none of these
/// steps fails on a `Vec` cursor. The `requires` rules out the inputs on which
/// hound divides by zero or overflows a `u32`.
#[verifier::external_body]
fn write_wav(samples: &Vec<i16>, channels: u16, rate: u32, bits: u16) -> (r: Result<Vec<u8>, hound::Error>)
    requires
        channels == 1,
        bits == 16,
        rate > 0,
        rate as int * 2 <= u32::MAX,
        RIFF_SIZE_OVERHEAD + 2 * samples@.len() <= u32::MAX,
    ensures
        r is Ok,
        r is Ok ==> r->Ok_0@ == clip_of(samples@, rate),
{
    let spec = hound::WavSpec { channels, sample_rate: rate, bits_per_sample: bits, sample_format: hound::SampleFormat::Int };
    let mut cursor = std::io::Cursor::new(Vec::new());
    let mut writer = hound::WavWriter::new(&mut cursor, spec)?;
    for &s in samples.iter() {
        writer.write_sample(s)?;
    }
    writer.finalize()?;
    Ok(cursor.into_inner())
}

/// Why encoding a clip failed.
#[derive(Debug, Clone, Copy, PartialEq, Eq, Structural)]
pub enum EncodeFailure {
    /// The rate is zero or the clip is too large for a WAVE file.
    OutOfRange,
    /// The WAVE writer reported an error.
    Writer,
}

/// What encoding `samples` at `rate` yields: the clip when it fits a WAVE
/// file, `OutOfRange` otherwise.
pub open spec fn encoded_as(r: Result<Vec<u8>, EncodeFailure>, samples: Seq<i16>, rate: u32) -> bool {
    if clip_fits(samples.len(), rate) {
        r is Ok && r->Ok_0@ == clip_of(samples, rate)
    } else {
        r == Err::<Vec<u8>, EncodeFailure>(EncodeFailure::OutOfRange)
    }
}

/// Encodes `samples` as a mono 16-bit PCM WAVE clip at `sample_rate`.
///
/// Succeeds exactly when the clip fits a WAVE file, with the bytes of
/// `clip_of`; fails with `OutOfRange` otherwise. Samples are written as they
/// are, without clamping.
pub fn encode(samples: &Vec<i16>, sample_rate: u32) -> (r: Result<Vec<u8>, EncodeFailure>)
    ensures
        encoded_as(r, samples@, sample_rate),
{
    if sample_rate == 0 || sample_rate > u32::MAX / 2 || samples.len() as u64 > (u32::MAX as u64 - RIFF_SIZE_OVERHEAD) / 2 {
        return Err(EncodeFailure::OutOfRange);
    }
    match write_wav(samples, CLIP_CHANNELS, sample_rate, CLIP_BITS) {
        Ok(bytes) => Ok(bytes),
        Err(_) => Err(EncodeFailure::Writer),
    }
}

/// Encoding is deterministic: two encodings of the same samples at the same
/// rate both succeed with byte-identical clips, or both fail alike.
pub proof fn lemma_encode_deterministic(
    samples: Seq<i16>,
    rate: u32,
    first: Result<Vec<u8>, EncodeFailure>,
    second: Result<Vec<u8>, EncodeFailure>,
)
    requires
        encoded_as(first, samples, rate),
        encoded_as(second, samples, rate),
    ensures
        first is Ok <==> second is Ok,
        first is Ok ==> first->Ok_0@ == second->Ok_0@,
        first is Err ==> first == second,
{
}

/// The data section has two bytes per sample.
pub proof fn lemma_pcm_bytes_len(samples: Seq<i16>)
    ensures
        pcm_bytes(samples).len() == 2 * samples.len(),
    decreases samples.len(),
{
    if samples.len() > 0 {
        lemma_pcm_bytes_len(samples.drop_last());
    }
}

/// Each sample is encoded on its own, in order: the data section of a
/// concatenation is the concatenation of the data sections.
pub proof fn lemma_pcm_bytes_concat(a: Seq<i16>, b: Seq<i16>)
    ensures
        pcm_bytes(a + b) == pcm_bytes(a) + pcm_bytes(b),
    decreases b.len(),
{
    if b.len() == 0 {
        assert(a + b == a);
        assert(pcm_bytes(b) == Seq::<u8>::empty());
        assert(pcm_bytes(a) + Seq::<u8>::empty() == pcm_bytes(a));
    } else {
        assert((a + b).drop_last() == a + b.drop_last());
        assert((a + b).last() == b.last());
        lemma_pcm_bytes_concat(a, b.drop_last());
        assert(pcm_bytes(a) + pcm_bytes(b.drop_last()) + le16(sample_bits(b.last()))
            == pcm_bytes(a) + (pcm_bytes(b.drop_last()) + le16(sample_bits(b.last()))));
    }
}

/// Sample `i` sits at bytes `2i` and `2i + 1` of the data section.
pub proof fn lemma_pcm_bytes_index(samples: Seq<i16>, i: int)
    requires
        0 <= i < samples.len(),
    ensures
        pcm_bytes(samples)[2 * i] == (sample_bits(samples[i]) % 256) as u8,
        pcm_bytes(samples)[2 * i + 1] == ((sample_bits(samples[i]) / 256) % 256) as u8,
    decreases samples.len(),
{
    lemma_pcm_bytes_len(samples.drop_last());
    if i < samples.len() - 1 {
        lemma_pcm_bytes_index(samples.drop_last(), i);
    }
}

/// The layout of a clip, from which a decoder recovers every sample: the
/// header gives the rate and the sample count, the length is 44 + 2n, and
/// sample `i` is the little-endian pair at byte 44 + 2i.
pub proof fn lemma_clip_layout(samples: Seq<i16>, rate: u32)
    ensures
        clip_of(samples, rate).len() == WAV_HEADER_BYTES + 2 * samples.len(),
        clip_of(samples, rate).subrange(0, 44) == wav_header(samples.len(), rate),
        forall|i: int| 0 <= i < samples.len() ==> {
            &&& #[trigger] clip_of(samples, rate)[44 + 2 * i] == (sample_bits(samples[i]) % 256) as u8
            &&& clip_of(samples, rate)[44 + 2 * i + 1] == ((sample_bits(samples[i]) / 256) % 256) as u8
        },
{
    lemma_pcm_bytes_len(samples);
    let h = wav_header(samples.len(), rate);
    assert(h.len() == 44);
    assert(clip_of(samples, rate).subrange(0, 44) =~= h);
    assert forall|i: int| 0 <= i < samples.len() implies {
        &&& #[trigger] clip_of(samples, rate)[44 + 2 * i] == (sample_bits(samples[i]) % 256) as u8
        &&& clip_of(samples, rate)[44 + 2 * i + 1] == ((sample_bits(samples[i]) / 256) % 256) as u8
    } by {
        lemma_pcm_bytes_index(samples, i);
    }
}

} // verus!
