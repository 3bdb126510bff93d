//! The outside codecs, and what this library takes on trust about them.
//!
//! MP3 data comes from LAME through `mp3lame_encoder`, WAV data from
//! `hound`. Nothing is claimed about the bytes LAME produces: an encoder is
//! a black box that appends some bytes to a buffer or fails.

use vstd::prelude::*;

verus! {

/// Largest number of samples handed to LAME in one call: the count must
/// fit the C `int` that LAME takes.
pub const MAX_CODEC_INPUT: usize = 0x7fff_ffff;

/// Largest number of samples in one WAV image: the data and the header
/// together must fit the 32-bit sizes of the format.
pub const MAX_WAV_SAMPLES: usize = 0x7fff_0000;

/// Largest sample rate of a WAV image: the bytes per second of a stereo
/// 16-bit stream must fit 32 bits.
pub const MAX_WAV_RATE: u32 = 0x3fff_ffff;

/// `mp3lame_encoder::Builder`, the settings of an encoder in the
/// making. Nothing is known of what is inside.
#[verifier::external_type_specification]
#[verifier::external_body]
pub struct ExBuilder(mp3lame_encoder::Builder);

/// `mp3lame_encoder::Encoder`, a LAME encoder at work. Nothing is known
/// of what is inside.
#[verifier::external_type_specification]
#[verifier::external_body]
pub struct ExEncoder(mp3lame_encoder::Encoder);

/// `mp3lame_encoder::BuildError`, with its variants.
#[verifier::external_type_specification]
pub struct ExBuildError(mp3lame_encoder::BuildError);

/// `mp3lame_encoder::EncodeError`, with its variants.
#[verifier::external_type_specification]
pub struct ExEncodeError(mp3lame_encoder::EncodeError);

/// `mp3lame_encoder::Bitrate`, the bit rates LAME knows.
#[verifier::external_type_specification]
pub struct ExBitrate(mp3lame_encoder::Bitrate);

/// `mp3lame_encoder::Quality`, the quality settings LAME knows.
#[verifier::external_type_specification]
pub struct ExQuality(mp3lame_encoder::Quality);

/// `hound::Error`. Nothing is known of what is inside.
#[verifier::external_type_specification]
#[verifier::external_body]
pub struct ExWavError(hound::Error);

/// `Builder::new` allocates LAME's settings, or returns `None` when LAME
/// cannot allocate them.
pub assume_specification[ mp3lame_encoder::Builder::new ]() -> (b: Option<mp3lame_encoder::Builder>);

/// `Builder::set_sample_rate` records the input sample rate, or reports
/// why LAME refused it.
pub assume_specification[ mp3lame_encoder::Builder::set_sample_rate ](
    b: &mut mp3lame_encoder::Builder,
    rate: u32,
) -> (r: Result<(), mp3lame_encoder::BuildError>);

/// `Builder::set_num_channels` records the number of input channels, or
/// reports why LAME refused it.
pub assume_specification[ mp3lame_encoder::Builder::set_num_channels ](
    b: &mut mp3lame_encoder::Builder,
    num: u8,
) -> (r: Result<(), mp3lame_encoder::BuildError>);

/// `Builder::set_brate` records the bit rate, or reports why LAME refused
/// it.
pub assume_specification[ mp3lame_encoder::Builder::set_brate ](
    b: &mut mp3lame_encoder::Builder,
    brate: mp3lame_encoder::Bitrate,
) -> (r: Result<(), mp3lame_encoder::BuildError>);

/// `Builder::set_quality` records the quality setting, or reports why
/// LAME refused it.
pub assume_specification[ mp3lame_encoder::Builder::set_quality ](
    b: &mut mp3lame_encoder::Builder,
    quality: mp3lame_encoder::Quality,
) -> (r: Result<(), mp3lame_encoder::BuildError>);

/// `Builder::build` initialises an encoder from the settings, or reports
/// why LAME could not.
pub assume_specification[ mp3lame_encoder::Builder::build ](b: mp3lame_encoder::Builder) -> (r: Result<
    mp3lame_encoder::Encoder,
    mp3lame_encoder::BuildError,
>);

/// `Encoder::encode_to_vec` on single-channel input (`MonoPcm`): on
/// success LAME has appended as many bytes to `out` as the call returns,
/// and on failure `out` holds what it held.
#[verifier::external_body]
pub(crate) fn lame_encode_mono(
    enc: &mut mp3lame_encoder::Encoder,
    pcm: &Vec<i16>,
    out: &mut Vec<u8>,
) -> (r: Result<usize, mp3lame_encoder::EncodeError>)
    requires
        pcm@.len() <= MAX_CODEC_INPUT,
    ensures
        match r {
            Ok(n) => final(out)@.len() == old(out)@.len() + n && final(out)@.subrange(
                0,
                old(out)@.len() as int,
            ) == old(out)@,
            Err(_) => final(out)@ == old(out)@,
        },
{
    out.reserve(mp3lame_encoder::max_required_buffer_size(pcm.len()));
    enc.encode_to_vec(mp3lame_encoder::MonoPcm(pcm.as_slice()), out)
}

/// `Encoder::encode_to_vec` on two interleaved channels
/// (`InterleavedPcm`), which takes an even number of samples: on success
/// LAME has appended as many bytes to `out` as the call returns, and on
/// failure `out` holds what it held.
#[verifier::external_body]
pub(crate) fn lame_encode_interleaved(
    enc: &mut mp3lame_encoder::Encoder,
    pcm: &Vec<i16>,
    out: &mut Vec<u8>,
) -> (r: Result<usize, mp3lame_encoder::EncodeError>)
    requires
        pcm@.len() <= MAX_CODEC_INPUT,
        pcm@.len() % 2 == 0,
    ensures
        match r {
            Ok(n) => final(out)@.len() == old(out)@.len() + n && final(out)@.subrange(
                0,
                old(out)@.len() as int,
            ) == old(out)@,
            Err(_) => final(out)@ == old(out)@,
        },
{
    out.reserve(mp3lame_encoder::max_required_buffer_size(pcm.len()));
    enc.encode_to_vec(mp3lame_encoder::InterleavedPcm(pcm.as_slice()), out)
}

/// `Encoder::flush_to_vec` with `FlushNoGap`: on success LAME has
/// appended the bytes it still held back, as many as the call returns, and
/// on failure `out` holds what it held.
#[verifier::external_body]
pub(crate) fn lame_flush(enc: &mut mp3lame_encoder::Encoder, out: &mut Vec<u8>) -> (r: Result<
    usize,
    mp3lame_encoder::EncodeError,
>)
    ensures
        match r {
            Ok(n) => final(out)@.len() == old(out)@.len() + n && final(out)@.subrange(
                0,
                old(out)@.len() as int,
            ) == old(out)@,
            Err(_) => final(out)@ == old(out)@,
        },
{
    out.reserve(mp3lame_encoder::max_required_buffer_size(0));
    enc.flush_to_vec::<mp3lame_encoder::FlushNoGap>(out)
}

/// A number below 2^16 as two bytes, the low byte first.
pub open spec fn le_u16(x: int) -> Seq<u8> {
    seq![(x % 256) as u8, (x / 256 % 256) as u8]
}

/// A number below 2^32 as four bytes, the low byte first.
pub open spec fn le_u32(x: int) -> Seq<u8> {
    seq![(x % 256) as u8, (x / 256 % 256) as u8, (x / 65536 % 256) as u8, (x / 16777216 % 256) as u8]
}

/// A 16-bit sample as two bytes in two's complement, the low byte
/// first.
pub open spec fn le_sample(sample: i16) -> Seq<u8> {
    le_u16(
        if sample >= 0 {
            sample as int
        } else {
            sample as int + 65536
        },
    )
}

/// The data of a WAV file: every sample as two bytes, in order.
pub open spec fn le_samples(pcm: Seq<i16>) -> Seq<u8> {
    Seq::new(2 * pcm.len(), |i: int| le_sample(pcm[i / 2])[i % 2])
}

/// The 44 bytes a WAV file of integer PCM begins with, for `samples`
/// samples in all: the RIFF chunk with the size of what follows it, the
/// format chunk (PCM, channels, sample rate, bytes per second, bytes per
/// frame, bits per sample), and the head of the data chunk with the
/// size of the data.
pub open spec fn wav_header(sample_rate: u32, channels: u16, bits_per_sample: u16, samples: nat) -> Seq<u8> {
    let sample_bytes = bits_per_sample as int / 8;
    let data_bytes = samples * sample_bytes;
    seq![0x52u8, 0x49, 0x46, 0x46] + le_u32(36 + data_bytes) + seq![0x57u8, 0x41, 0x56, 0x45] + seq![
        0x66u8,
        0x6d,
        0x74,
        0x20,
    ] + le_u32(16) + le_u16(1) + le_u16(channels as int) + le_u32(sample_rate as int) + le_u32(
        sample_rate * sample_bytes * channels,
    ) + le_u16(sample_bytes * channels) + le_u16(bits_per_sample as int) + seq![
        0x64u8,
        0x61,
        0x74,
        0x61,
    ] + le_u32(data_bytes)
}

/// The bytes of the WAV file that `hound` writes for 16-bit integer PCM
/// samples at a sample rate and a channel count: the header, then the
/// samples.
pub open spec fn wav_image(sample_rate: u32, channels: u16, bits_per_sample: u16, pcm: Seq<i16>) -> Seq<u8> {
    wav_header(sample_rate, channels, bits_per_sample, pcm.len()) + le_samples(pcm)
}

/// A WAV file of 16-bit samples is 44 bytes longer than its samples
/// take.
pub proof fn lemma_wav_image_len(sample_rate: u32, channels: u16, bits_per_sample: u16, pcm: Seq<i16>)
    ensures
        wav_image(sample_rate, channels, bits_per_sample, pcm).len() == 44 + 2 * pcm.len(),
{
}

/// `hound::WavWriter` over a buffer in memory: `new`, a `write_sample`
/// for each sample in order, then `finalize`. What comes back on success
/// is the whole file: the header as `new` writes it and `finalize`
/// completes it with the two sizes, then each sample as `write_sample`
/// writes it. The writer works on its arguments alone, and a
/// buffer in memory takes every write: creation fails only on a sample
/// width that cannot be written, a 16-bit sample always fits, and
/// `finalize` fails only when the samples do not fill whole frames. So
/// samples that fill whole frames give a file.
#[verifier::external_body]
pub(crate) fn hound_wav_image(sample_rate: u32, channels: u16, bits_per_sample: u16, pcm: &Vec<i16>) -> (r:
    Result<Vec<u8>, hound::Error>)
    requires
        0 < sample_rate <= MAX_WAV_RATE,
        1 <= channels <= 2,
        bits_per_sample == 16,
        pcm@.len() <= MAX_WAV_SAMPLES,
    ensures
        r matches Ok(bytes) ==> bytes@ == wav_image(sample_rate, channels, bits_per_sample, pcm@),
        pcm@.len() as int % (channels as int) == 0 ==> r is Ok,
{
    let sample_format = hound::SampleFormat::Int;
    let format = hound::WavSpec { channels, sample_rate, bits_per_sample, sample_format };
    let mut cursor = std::io::Cursor::new(Vec::new());
    let mut writer = hound::WavWriter::new(&mut cursor, format)?;
    for s in pcm.iter() {
        writer.write_sample(*s)?;
    }
    writer.finalize()?;
    Ok(cursor.into_inner())
}

/// Why an encoder could not be set up or could not take its input.
#[derive(Debug, Clone, Copy, PartialEq, Eq, Structural)]
pub enum SinkError {
    /// The codec could not allocate an encoder.
    EncoderUnavailable,
    /// The codec refused the sample rate, channel count, bit rate or
    /// quality, or a WAV file cannot be written at the sample rate.
    InvalidSettings,
    /// The encoder was asked for a number of channels other than one or
    /// two.
    UnsupportedChannels,
    /// The input is longer than the codec or the file format can take.
    InputTooLong,
    /// Interleaved input ends in the middle of a frame.
    UnfinishedFrame,
    /// The codec failed while encoding, or while writing the file's
    /// bytes.
    CodecFailure,
}

/// The library's error for a failure to set an encoder up.
pub open spec fn build_failure_spec(e: mp3lame_encoder::BuildError) -> SinkError {
    match e {
        mp3lame_encoder::BuildError::NoMem => SinkError::EncoderUnavailable,
        _ => SinkError::InvalidSettings,
    }
}

/// Maps LAME's set-up error to the library's: running out of memory means
/// that no encoder is to be had, anything else that the settings are
/// refused.
pub fn build_failure(e: mp3lame_encoder::BuildError) -> (r: SinkError)
    ensures
        r == build_failure_spec(e),
{
    match e {
        mp3lame_encoder::BuildError::NoMem => SinkError::EncoderUnavailable,
        _ => SinkError::InvalidSettings,
    }
}

/// What an encoding step returns for each outcome of the codec: the
/// number of bytes is dropped, and every failure is a `CodecFailure`.
pub fn encode_outcome(r: Result<usize, mp3lame_encoder::EncodeError>) -> (out: Result<(), SinkError>)
    ensures
        out == match r {
            Ok(_) => Ok::<(), SinkError>(()),
            Err(_) => Err::<(), SinkError>(SinkError::CodecFailure),
        },
{
    match r {
        Ok(_) => Ok(()),
        Err(_) => Err(SinkError::CodecFailure),
    }
}

/// What a WAV encoding returns for each outcome of the writer: the file's
/// bytes as they are, and every failure as a `CodecFailure`.
pub fn wav_outcome(r: Result<Vec<u8>, hound::Error>) -> (out: Result<Vec<u8>, SinkError>)
    ensures
        out == match r {
            Ok(bytes) => Ok::<Vec<u8>, SinkError>(bytes),
            Err(_) => Err::<Vec<u8>, SinkError>(SinkError::CodecFailure),
        },
{
    match r {
        Ok(bytes) => Ok(bytes),
        Err(_) => Err(SinkError::CodecFailure),
    }
}

} // verus!
