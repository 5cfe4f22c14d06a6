//! Byte-exact serialization of a RIFF/WAVE container.
//!
//! The encoder takes a finished buffer of 16-bit signed PCM samples (mono,
//! 44100 Hz) and produces the complete file image: a 44-byte header — the
//! `RIFF` chunk, the `fmt ` subchunk describing the PCM format, and the
//! `data` subchunk header — followed by the samples in little-endian order.
//! Producing the samples (synthesis, normalization, quantization) is
//! floating-point work left to the embedding application; everything that
//! reaches the file goes through this module and is specified to the byte.

use vstd::prelude::*;

verus! {

/// The fixed PCM output format.
pub struct WAV {}

impl WAV {
    /// Samples per second of the configured format.
    pub const SAMPLE_RATE: u32 = 44100;

    /// Width of one quantized sample.
    pub const BITS_PER_SAMPLE: u16 = 16;

    /// The output is mono.
    pub const NUM_OF_CHANNELS: u16 = 1;
}

/// The two bytes of `v`, least significant first.
pub open spec fn spec_le16(v: u16) -> Seq<u8> {
    seq![(v % 256) as u8, (v / 256) as u8]
}

/// The four bytes of `v`, least significant first.
pub open spec fn spec_le32(v: u32) -> Seq<u8> {
    seq![
        (v % 256) as u8,
        ((v / 256) % 256) as u8,
        ((v / 65536) % 256) as u8,
        (v / 16777216) as u8,
    ]
}

/// The two's-complement bit pattern of a signed 16-bit sample.
pub open spec fn spec_sample_bits(v: i16) -> u16 {
    if v >= 0 {
        v as u16
    } else {
        (v + 0x10000) as u16
    }
}

/// The PCM body of the file: each sample as two little-endian bytes, in
/// order.
pub open spec fn spec_pcm_bytes(s: Seq<i16>) -> Seq<u8>
    decreases s.len(),
{
    if s.len() == 0 {
        Seq::empty()
    } else {
        spec_pcm_bytes(s.drop_last()) + spec_le16(spec_sample_bits(s.last()))
    }
}

/// The 44-byte RIFF/WAVE header for a mono, 16-bit, 44100 Hz file holding
/// `num_samples` samples. `data_size` is `2 * num_samples`; the `RIFF`
/// chunk size is `36 + data_size`; the byte rate is `sample_rate * 2` and
/// the block align `2`.
pub open spec fn spec_wav_header(num_samples: nat) -> Seq<u8> {
    let data_size = (num_samples * 2) as u32;
    seq![0x52u8, 0x49u8, 0x46u8, 0x46u8]  // "RIFF"
    + spec_le32((36 + data_size) as u32)
    + seq![0x57u8, 0x41u8, 0x56u8, 0x45u8]  // "WAVE"
    + seq![0x66u8, 0x6Du8, 0x74u8, 0x20u8]  // "fmt "
    + spec_le32(16)  // subchunk size
    + spec_le16(1)  // PCM
    + spec_le16(1)  // channels
    + spec_le32(44100)  // sample rate
    + spec_le32(88200)  // byte rate
    + spec_le16(2)  // block align
    + spec_le16(16)  // bits per sample
    + seq![0x64u8, 0x61u8, 0x74u8, 0x61u8]  // "data"
    + spec_le32(data_size)
}

/// The complete file image for a buffer of samples.
pub open spec fn spec_wav_bytes(s: Seq<i16>) -> Seq<u8> {
    spec_wav_header(s.len()) + spec_pcm_bytes(s)
}

/// Appends the two little-endian bytes of `v`.
fn push_le16(out: &mut Vec<u8>, v: u16)
    ensures
        final(out)@ == old(out)@ + spec_le16(v),
{
    out.push((v % 256) as u8);
    out.push((v / 256) as u8);
    assert(final(out)@ =~= old(out)@ + spec_le16(v));
}

/// Appends the four little-endian bytes of `v`.
fn push_le32(out: &mut Vec<u8>, v: u32)
    ensures
        final(out)@ == old(out)@ + spec_le32(v),
{
    out.push((v % 256) as u8);
    out.push(((v / 256) % 256) as u8);
    out.push(((v / 65536) % 256) as u8);
    out.push((v / 16777216) as u8);
    assert(final(out)@ =~= old(out)@ + spec_le32(v));
}

impl WAV {
    /// Serializes a finished sample buffer as a complete RIFF/WAVE file
    /// image, header and PCM body, byte for byte.
    ///
    /// The buffer length is bounded so that the data size and the `RIFF`
    /// chunk size fit the 32-bit size fields of the container.
    pub fn encode(samples: &Vec<i16>) -> (out: Vec<u8>)
        requires
            samples@.len() * 2 + 36 <= u32::MAX,
        ensures
            out@ == spec_wav_bytes(samples@),
    {
        let mut out: Vec<u8> = Vec::new();
        let data_size: u32 = (samples.len() as u64 * 2) as u32;

        // "RIFF" chunk header
        out.push(0x52);
        out.push(0x49);
        out.push(0x46);
        out.push(0x46);
        push_le32(&mut out, 36 + data_size);
        out.push(0x57);
        out.push(0x41);
        out.push(0x56);
        out.push(0x45);

        // "fmt " subchunk
        out.push(0x66);
        out.push(0x6D);
        out.push(0x74);
        out.push(0x20);
        push_le32(&mut out, 16);
        push_le16(&mut out, 1);
        push_le16(&mut out, Self::NUM_OF_CHANNELS);
        push_le32(&mut out, Self::SAMPLE_RATE);
        push_le32(
            &mut out,
            Self::SAMPLE_RATE * Self::NUM_OF_CHANNELS as u32 * Self::BITS_PER_SAMPLE as u32 / 8,
        );
        push_le16(&mut out, Self::NUM_OF_CHANNELS * Self::BITS_PER_SAMPLE / 8);
        push_le16(&mut out, Self::BITS_PER_SAMPLE);

        // "data" subchunk
        out.push(0x64);
        out.push(0x61);
        out.push(0x74);
        out.push(0x61);
        push_le32(&mut out, data_size);

        assert(out@ =~= spec_wav_header(samples@.len()));

        let mut i: usize = 0;
        while i < samples.len()
            invariant
                i <= samples@.len(),
                out@ == spec_wav_header(samples@.len()) + spec_pcm_bytes(samples@.take(i as int)),
            decreases samples@.len() - i,
        {
            let v = samples[i];
            let bits: u16 = if v >= 0 {
                v as u16
            } else {
                (v as i32 + 0x10000) as u16
            };
            assert(bits == spec_sample_bits(samples@[i as int]));
            push_le16(&mut out, bits);
            proof {
                let t = samples@.take(i + 1 as int);
                assert(t.drop_last() =~= samples@.take(i as int));
                assert(t.last() == samples@[i as int]);
            }
            i = i + 1;
        }
        proof {
            assert(samples@.take(samples@.len() as int) =~= samples@);
        }
        out
    }
}

} // verus!
