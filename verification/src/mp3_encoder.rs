//! Encoders for the mixed mono stream: MP3 in one piece, MP3 chunk by
//! chunk while a recording runs, and WAV.

use vstd::prelude::*;
use crate::codec::{
    build_failure, encode_outcome, hound_wav_image, lame_encode_interleaved, lame_encode_mono, lame_flush,
    wav_image, wav_outcome, SinkError, MAX_CODEC_INPUT, MAX_WAV_RATE, MAX_WAV_SAMPLES,
};
use crate::sample::{quantize_chunk, quantized_seq};

verus! {

/// The worst quality setting that LAME knows.
pub const WORST_QUALITY: u8 = 9;

/// The bit rate used for a request in kbit/s: one of the six rates the
/// recorder offers, and 128 kbit/s for any other number.
pub open spec fn chosen_bitrate(bit_rate: u32) -> mp3lame_encoder::Bitrate {
    if bit_rate == 64 {
        mp3lame_encoder::Bitrate::Kbps64
    } else if bit_rate == 96 {
        mp3lame_encoder::Bitrate::Kbps96
    } else if bit_rate == 192 {
        mp3lame_encoder::Bitrate::Kbps192
    } else if bit_rate == 256 {
        mp3lame_encoder::Bitrate::Kbps256
    } else if bit_rate == 320 {
        mp3lame_encoder::Bitrate::Kbps320
    } else {
        mp3lame_encoder::Bitrate::Kbps128
    }
}

/// The codec quality used for a setting from 0 (best) to 9: the best for
/// 0, and LAME's middle setting for every other number.
pub open spec fn chosen_quality(quality: u8) -> mp3lame_encoder::Quality {
    if quality == 0 {
        mp3lame_encoder::Quality::Best
    } else {
        mp3lame_encoder::Quality::Good
    }
}

/// Picks the codec's bit rate for a request in kbit/s.
pub fn select_bitrate(bit_rate: u32) -> (b: mp3lame_encoder::Bitrate)
    ensures
        b == chosen_bitrate(bit_rate),
{
    if bit_rate == 64 {
        mp3lame_encoder::Bitrate::Kbps64
    } else if bit_rate == 96 {
        mp3lame_encoder::Bitrate::Kbps96
    } else if bit_rate == 192 {
        mp3lame_encoder::Bitrate::Kbps192
    } else if bit_rate == 256 {
        mp3lame_encoder::Bitrate::Kbps256
    } else if bit_rate == 320 {
        mp3lame_encoder::Bitrate::Kbps320
    } else {
        mp3lame_encoder::Bitrate::Kbps128
    }
}

/// Picks the codec's quality for a setting from 0 to 9.
pub fn select_quality(quality: u8) -> (q: mp3lame_encoder::Quality)
    ensures
        q == chosen_quality(quality),
{
    if quality == 0 {
        mp3lame_encoder::Quality::Best
    } else {
        mp3lame_encoder::Quality::Good
    }
}

/// Sets a LAME encoder up step by step and stops at the first step that
/// the codec refuses.
pub(crate) fn build_encoder(
    sample_rate: u32,
    channels: u8,
    bitrate: mp3lame_encoder::Bitrate,
    quality: mp3lame_encoder::Quality,
) -> (r: Result<mp3lame_encoder::Encoder, SinkError>)
    ensures
        r matches Err(e) ==> e == SinkError::EncoderUnavailable || e == SinkError::InvalidSettings,
{
    let mut builder = match mp3lame_encoder::Builder::new() {
        Some(b) => b,
        None => {
            return Err(SinkError::EncoderUnavailable);
        },
    };
    match builder.set_sample_rate(sample_rate) {
        Ok(()) => {},
        Err(e) => {
            return Err(build_failure(e));
        },
    }
    match builder.set_num_channels(channels) {
        Ok(()) => {},
        Err(e) => {
            return Err(build_failure(e));
        },
    }
    match builder.set_brate(bitrate) {
        Ok(()) => {},
        Err(e) => {
            return Err(build_failure(e));
        },
    }
    match builder.set_quality(quality) {
        Ok(()) => {},
        Err(e) => {
            return Err(build_failure(e));
        },
    }
    match builder.build() {
        Ok(encoder) => Ok(encoder),
        Err(e) => Err(build_failure(e)),
    }
}

/// Settings of a mono MP3 encoding.
#[derive(Debug, Clone, Copy, PartialEq, Eq, Structural)]
pub struct Mp3Encoder {
    pub sample_rate: u32,
    pub bit_rate: u32,
    pub quality: u8,
}

impl Mp3Encoder {
    /// Settings with the quality limited to LAME's range of 0 to 9.
    pub fn new(sample_rate: u32, bit_rate: u32, quality: u8) -> (e: Mp3Encoder)
        ensures
            e.sample_rate == sample_rate,
            e.bit_rate == bit_rate,
            e.quality == if quality > WORST_QUALITY {
                WORST_QUALITY
            } else {
                quality
            },
    {
        Mp3Encoder {
            sample_rate,
            bit_rate,
            quality: if quality > WORST_QUALITY {
                WORST_QUALITY
            } else {
                quality
            },
        }
    }

    /// Makes a fresh encoder with these settings and hands it a whole
    /// recording in one piece. The encoder that comes back has been fed
    /// the quantized value of every sample, in order, and nothing else;
    /// it still holds back what a flush brings out.
    ///
    /// Input longer than the codec takes at once is refused before an
    /// encoder is made; every other outcome is the codec's.
    pub fn encode_whole(&self, samples: &Vec<i32>) -> (r: Result<StreamingMp3Encoder, SinkError>)
        ensures
            match r {
                Ok(enc) => samples@.len() <= MAX_CODEC_INPUT && enc.fed() == quantized_seq(samples@)
                    && enc.sample_count() == samples@.len() && !enc.stereo(),
                Err(e) => if samples@.len() > MAX_CODEC_INPUT {
                    e == SinkError::InputTooLong
                } else {
                    e == SinkError::EncoderUnavailable || e == SinkError::InvalidSettings || e
                        == SinkError::CodecFailure
                },
            },
    {
        if samples.len() > MAX_CODEC_INPUT {
            return Err(SinkError::InputTooLong);
        }
        let mut streaming = match self.create_streaming_encoder() {
            Ok(s) => s,
            Err(e) => {
                return Err(e);
            },
        };
        match streaming.encode_samples(samples) {
            Ok(()) => {
                assert(Seq::<i16>::empty() + quantized_seq(samples@) =~= quantized_seq(samples@));
                Ok(streaming)
            },
            Err(e) => Err(e),
        }
    }

    /// Encodes a whole recording and returns the bytes of its MP3 file:
    /// what `encode_whole` has encoded, flushed.
    ///
    /// Input longer than the codec takes at once is refused before an
    /// encoder is made; every other outcome is the codec's.
    pub fn encode_to_file(&self, samples: &Vec<i32>) -> (r: Result<Vec<u8>, SinkError>)
        ensures
            samples@.len() > MAX_CODEC_INPUT ==> r == Err::<Vec<u8>, SinkError>(SinkError::InputTooLong),
            samples@.len() <= MAX_CODEC_INPUT ==> (r matches Err(e) ==> e == SinkError::EncoderUnavailable
                || e == SinkError::InvalidSettings || e == SinkError::CodecFailure),
    {
        match self.encode_whole(samples) {
            Ok(streaming) => streaming.finish(),
            Err(e) => Err(e),
        }
    }

    /// An encoder with these settings that takes the recording chunk by
    /// chunk.
    pub fn create_streaming_encoder(&self) -> (r: Result<StreamingMp3Encoder, SinkError>)
        ensures
            match r {
                Ok(enc) => enc.bytes() == Seq::<u8>::empty() && enc.sample_count() == 0 && enc.fed()
                    == Seq::<i16>::empty() && !enc.stereo(),
                Err(e) => e == SinkError::EncoderUnavailable || e == SinkError::InvalidSettings,
            },
    {
        StreamingMp3Encoder::new(self.sample_rate, self.bit_rate, self.quality)
    }
}

/// An MP3 encoder that is fed chunk by chunk and collects the encoded
/// bytes in memory. It takes one channel, or two interleaved.
pub struct StreamingMp3Encoder {
    encoder: mp3lame_encoder::Encoder,
    mp3_buffer: Vec<u8>,
    samples: u64,
    stereo: bool,
    fed: Ghost<Seq<i16>>,
}

impl StreamingMp3Encoder {
    /// The encoded bytes collected so far.
    pub closed spec fn bytes(&self) -> Seq<u8> {
        self.mp3_buffer@
    }

    /// The number of samples taken so far.
    pub closed spec fn sample_count(&self) -> nat {
        self.samples as nat
    }

    /// The PCM samples that were handed to the codec and that it took,
    /// in order.
    pub closed spec fn fed(&self) -> Seq<i16> {
        self.fed@
    }

    /// Whether the encoder takes two interleaved channels.
    pub closed spec fn stereo(&self) -> bool {
        self.stereo
    }

    /// Whether a chunk of `len` samples is taken: it must not be longer
    /// than the codec takes at once, and the count of samples must stay
    /// within `u64`.
    pub open spec fn takes(&self, len: nat) -> bool {
        len <= MAX_CODEC_INPUT && self.sample_count() + len <= u64::MAX
    }

    /// The reason for which the encoder refuses a chunk of `len`
    /// samples before the codec is asked, if there is one: a chunk it
    /// does not take is too long, and a chunk for two channels must hold
    /// whole frames.
    pub open spec fn refusal(&self, len: nat) -> Option<SinkError> {
        if !self.takes(len) {
            Some(SinkError::InputTooLong)
        } else if self.stereo() && len % 2 != 0 {
            Some(SinkError::UnfinishedFrame)
        } else {
            None
        }
    }

    /// Sets up an encoder for one channel at the given sample rate, with
    /// the bit rate and quality that `chosen_bitrate` and `chosen_quality`
    /// give. Whether the codec accepts the settings is the codec's to
    /// say.
    pub fn new(sample_rate: u32, bit_rate: u32, quality: u8) -> (r: Result<StreamingMp3Encoder, SinkError>)
        ensures
            match r {
                Ok(enc) => enc.bytes() == Seq::<u8>::empty() && enc.sample_count() == 0 && enc.fed()
                    == Seq::<i16>::empty() && !enc.stereo(),
                Err(e) => e == SinkError::EncoderUnavailable || e == SinkError::InvalidSettings,
            },
    {
        StreamingMp3Encoder::with_settings(sample_rate, false, select_bitrate(bit_rate), select_quality(quality))
    }

    /// Sets up an encoder for one channel, or for two interleaved, with
    /// the codec's own bit rate and quality settings. Whether the codec
    /// accepts the settings is the codec's to say.
    pub fn with_settings(
        sample_rate: u32,
        stereo: bool,
        bitrate: mp3lame_encoder::Bitrate,
        quality: mp3lame_encoder::Quality,
    ) -> (r: Result<StreamingMp3Encoder, SinkError>)
        ensures
            match r {
                Ok(enc) => enc.bytes() == Seq::<u8>::empty() && enc.sample_count() == 0 && enc.fed()
                    == Seq::<i16>::empty() && enc.stereo() == stereo,
                Err(e) => e == SinkError::EncoderUnavailable || e == SinkError::InvalidSettings,
            },
    {
        let channels: u8 = if stereo {
            2
        } else {
            1
        };
        match build_encoder(sample_rate, channels, bitrate, quality) {
            Ok(encoder) => Ok(
                StreamingMp3Encoder {
                    encoder,
                    mp3_buffer: Vec::new(),
                    samples: 0,
                    stereo,
                    fed: Ghost(Seq::empty()),
                },
            ),
            Err(e) => Err(e),
        }
    }

    /// Quantizes a chunk and hands it to the codec, as `encode_pcm` does
    /// with the quantized samples.
    pub fn encode_samples(&mut self, samples: &Vec<i32>) -> (r: Result<(), SinkError>)
        ensures
            final(self).stereo() == old(self).stereo(),
            old(self).refusal(samples@.len()) matches Some(e) ==> r == Err::<(), SinkError>(e),
            old(self).refusal(samples@.len()) is None ==> r == Ok::<(), SinkError>(()) || r == Err::<
                (),
                SinkError,
            >(SinkError::CodecFailure),
            r is Ok ==> final(self).sample_count() == old(self).sample_count() + samples@.len(),
            r is Ok ==> final(self).fed() == old(self).fed() + quantized_seq(samples@),
            r is Err ==> final(self).fed() == old(self).fed(),
            r is Ok ==> final(self).bytes().len() >= old(self).bytes().len(),
            r is Ok ==> final(self).bytes().subrange(0, old(self).bytes().len() as int) == old(
                self,
            ).bytes(),
            r is Err ==> final(self).sample_count() == old(self).sample_count(),
            r is Err ==> final(self).bytes() == old(self).bytes(),
    {
        let pcm = quantize_chunk(samples);
        self.encode_pcm(&pcm)
    }

    /// Hands a chunk of PCM samples to the codec, which appends what it
    /// has encoded so far to the collected bytes.
    ///
    /// A chunk that the encoder refuses leaves it as it was. For any
    /// other chunk the codec decides: on success the chunk has gone to
    /// the codec, it is counted and the collected bytes have only grown;
    /// on failure the error is `CodecFailure` and everything is what it
    /// was.
    pub fn encode_pcm(&mut self, pcm: &Vec<i16>) -> (r: Result<(), SinkError>)
        ensures
            final(self).stereo() == old(self).stereo(),
            old(self).refusal(pcm@.len()) matches Some(e) ==> r == Err::<(), SinkError>(e),
            old(self).refusal(pcm@.len()) is None ==> r == Ok::<(), SinkError>(()) || r == Err::<
                (),
                SinkError,
            >(SinkError::CodecFailure),
            r is Ok ==> final(self).sample_count() == old(self).sample_count() + pcm@.len(),
            r is Ok ==> final(self).fed() == old(self).fed() + pcm@,
            r is Err ==> final(self).fed() == old(self).fed(),
            r is Ok ==> final(self).bytes().len() >= old(self).bytes().len(),
            r is Ok ==> final(self).bytes().subrange(0, old(self).bytes().len() as int) == old(
                self,
            ).bytes(),
            r is Err ==> final(self).sample_count() == old(self).sample_count(),
            r is Err ==> final(self).bytes() == old(self).bytes(),
    {
        if pcm.len() > MAX_CODEC_INPUT {
            return Err(SinkError::InputTooLong);
        }
        let len: u64 = pcm.len() as u64;
        if len > u64::MAX - self.samples {
            return Err(SinkError::InputTooLong);
        }
        if self.stereo && pcm.len() % 2 != 0 {
            return Err(SinkError::UnfinishedFrame);
        }
        let outcome = if self.stereo {
            lame_encode_interleaved(&mut self.encoder, pcm, &mut self.mp3_buffer)
        } else {
            lame_encode_mono(&mut self.encoder, pcm, &mut self.mp3_buffer)
        };
        let r = encode_outcome(outcome);
        if r.is_ok() {
            self.samples = self.samples + len;
            self.fed = Ghost(self.fed@ + pcm@);
        }
        r
    }

    /// Flushes what the codec still holds back and returns all the bytes
    /// of the MP3 stream. The bytes collected before are its beginning.
    pub fn finish(self) -> (r: Result<Vec<u8>, SinkError>)
        ensures
            match r {
                Ok(data) => data@.len() >= self.bytes().len() && data@.subrange(
                    0,
                    self.bytes().len() as int,
                ) == self.bytes(),
                Err(e) => e == SinkError::CodecFailure,
            },
    {
        let StreamingMp3Encoder { encoder, mp3_buffer, samples: _, stereo: _, fed: _ } = self;
        let mut encoder = encoder;
        let mut mp3_buffer = mp3_buffer;
        let outcome = lame_flush(&mut encoder, &mut mp3_buffer);
        match encode_outcome(outcome) {
            Ok(()) => Ok(mp3_buffer),
            Err(e) => Err(e),
        }
    }

    /// The number of samples taken so far.
    pub fn samples_encoded(&self) -> (n: u64)
        ensures
            n as nat == self.sample_count(),
    {
        self.samples
    }

    /// The number of encoded bytes collected so far.
    pub fn encoded_len(&self) -> (n: usize)
        ensures
            n as nat == self.bytes().len(),
    {
        self.mp3_buffer.len()
    }
}

/// Settings of a mono 16-bit WAV encoding.
#[derive(Debug, Clone, Copy, PartialEq, Eq, Structural)]
pub struct WavEncoder {
    pub sample_rate: u32,
}

impl WavEncoder {
    pub fn new(sample_rate: u32) -> (e: WavEncoder)
        ensures
            e.sample_rate == sample_rate,
    {
        WavEncoder { sample_rate }
    }

    /// Whether a file can be written at this sample rate.
    pub open spec fn rate_supported(&self) -> bool {
        0 < self.sample_rate <= MAX_WAV_RATE
    }

    /// Encodes a whole recording and returns the bytes of its WAV file:
    /// one channel of 16-bit integer samples, each the quantized value of
    /// the sample at its place.
    ///
    /// A sample rate that the format cannot hold is refused with
    /// `InvalidSettings`, a recording that is too long with
    /// `InputTooLong`. Every other recording gives its file.
    pub fn encode_to_file(&self, samples: &Vec<i32>) -> (r: Result<Vec<u8>, SinkError>)
        ensures
            !self.rate_supported() ==> r == Err::<Vec<u8>, SinkError>(SinkError::InvalidSettings),
            self.rate_supported() && samples@.len() > MAX_WAV_SAMPLES ==> r == Err::<Vec<u8>, SinkError>(
                SinkError::InputTooLong,
            ),
            self.rate_supported() && samples@.len() <= MAX_WAV_SAMPLES ==> r is Ok,
            r matches Ok(bytes) ==> bytes@ == wav_image(self.sample_rate, 1, 16, quantized_seq(samples@)),
    {
        if self.sample_rate == 0 || self.sample_rate > MAX_WAV_RATE {
            return Err(SinkError::InvalidSettings);
        }
        if samples.len() > MAX_WAV_SAMPLES {
            return Err(SinkError::InputTooLong);
        }
        let pcm = quantize_chunk(samples);
        wav_outcome(hound_wav_image(self.sample_rate, 1, 16, &pcm))
    }
}

} // verus!
