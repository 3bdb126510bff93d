//! The sink a recording is encoded into: it takes the mixed samples
//! chunk by chunk and is closed once, either finalized into the bytes
//! of a file or abandoned.

use vstd::prelude::*;
use crate::codec::{wav_image, SinkError, MAX_CODEC_INPUT, MAX_WAV_RATE, MAX_WAV_SAMPLES};
use crate::mp3_encoder::{StreamingMp3Encoder, WavEncoder};
use crate::sample::{lemma_quantized_seq_concat, quantized_seq};
use crate::smart_recorder::AudioFormat;

verus! {

/// An encoder at work. An MP3 sink hands every chunk to the codec at
/// once; a WAV sink keeps the samples and writes the file when it is
/// finalized.
pub struct EncodeSink {
    format: AudioFormat,
    sample_rate: u32,
    mp3: Option<StreamingMp3Encoder>,
    pcm: Vec<i32>,
    samples: u64,
    taken: Ghost<Seq<i32>>,
}

impl EncodeSink {
    /// The invariant of a sink: it counts the samples it has taken. An
    /// MP3 sink holds an encoder that was fed the quantized samples, and
    /// a WAV sink holds the samples themselves, at a rate and of a length
    /// that a file can have.
    pub closed spec fn wf(&self) -> bool {
        &&& self.taken@.len() == self.samples
        &&& match self.format {
            AudioFormat::Mp3 => self.mp3 is Some && self.mp3.unwrap().sample_count() == self.samples
                && !self.mp3.unwrap().stereo() && self.mp3.unwrap().fed() == quantized_seq(self.taken@)
                && self.pcm@.len() == 0,
            AudioFormat::Wav => self.mp3 is None && self.pcm@ == self.taken@ && self.samples
                <= MAX_WAV_SAMPLES && 0 < self.sample_rate <= MAX_WAV_RATE,
        }
    }

    pub closed spec fn format(&self) -> AudioFormat {
        self.format
    }

    pub closed spec fn sample_rate(&self) -> u32 {
        self.sample_rate
    }

    /// The number of samples the sink has taken.
    pub closed spec fn sample_count(&self) -> nat {
        self.samples as nat
    }

    /// The samples the sink has taken, in the order it took them. A WAV
    /// sink holds them until it is finalized; an MP3 sink has handed the
    /// quantized value of each to the codec.
    pub closed spec fn held(&self) -> Seq<i32> {
        self.taken@
    }

    /// Whether the sink takes a chunk of `len` samples more.
    pub open spec fn takes(&self, len: nat) -> bool {
        match self.format() {
            AudioFormat::Mp3 => len <= MAX_CODEC_INPUT && self.sample_count() + len <= u64::MAX,
            AudioFormat::Wav => self.sample_count() + len <= MAX_WAV_SAMPLES,
        }
    }

    /// Whether a sink of this format can be opened at this sample rate,
    /// as far as this library decides it: a WAV file cannot hold every
    /// rate, and for MP3 the codec decides.
    pub open spec fn rate_accepted(format: AudioFormat, sample_rate: u32) -> bool {
        format == AudioFormat::Wav ==> 0 < sample_rate <= MAX_WAV_RATE
    }

    /// A well-formed sink counts the samples it has taken.
    pub proof fn lemma_held_len(&self)
        requires
            self.wf(),
        ensures
            self.held().len() == self.sample_count(),
    {
    }

    /// Opens a sink that has taken nothing. A WAV sink opens exactly at
    /// the rates a file can hold; whether an MP3 sink opens is the
    /// codec's to say.
    pub fn open(format: AudioFormat, sample_rate: u32, bit_rate: u32, quality: u8) -> (r: Result<
        EncodeSink,
        SinkError,
    >)
        ensures
            match r {
                Ok(sink) => sink.wf() && sink.format() == format && sink.sample_rate() == sample_rate
                    && sink.sample_count() == 0 && sink.held() == Seq::<i32>::empty(),
                Err(e) => e == SinkError::EncoderUnavailable || e == SinkError::InvalidSettings,
            },
            !Self::rate_accepted(format, sample_rate) ==> r is Err,
            format == AudioFormat::Wav && Self::rate_accepted(format, sample_rate) ==> r is Ok,
    {
        match format {
            AudioFormat::Mp3 => {
                match StreamingMp3Encoder::new(sample_rate, bit_rate, quality) {
                    Ok(encoder) => {
                        assert(quantized_seq(Seq::<i32>::empty()) =~= Seq::<i16>::empty());
                        Ok(
                            EncodeSink {
                                format,
                                sample_rate,
                                mp3: Some(encoder),
                                pcm: Vec::new(),
                                samples: 0,
                                taken: Ghost(Seq::empty()),
                            },
                        )
                    },
                    Err(e) => Err(e),
                }
            },
            AudioFormat::Wav => {
                if sample_rate == 0 || sample_rate > MAX_WAV_RATE {
                    Err(SinkError::InvalidSettings)
                } else {
                    Ok(
                        EncodeSink {
                            format,
                            sample_rate,
                            mp3: None,
                            pcm: Vec::new(),
                            samples: 0,
                            taken: Ghost(Seq::empty()),
                        },
                    )
                }
            },
        }
    }

    /// Takes a chunk. Chunks are taken in the order of the calls, and a
    /// chunk of any length is in order, an empty one too.
    ///
    /// A chunk the sink does not take is refused with `InputTooLong`. A
    /// WAV sink keeps every chunk it takes; with an MP3 sink the codec
    /// may fail, which is a `CodecFailure`. A chunk that is refused or
    /// fails leaves the sink as it was.
    pub fn encode(&mut self, chunk: &Vec<i32>) -> (r: Result<(), SinkError>)
        requires
            old(self).wf(),
        ensures
            final(self).wf(),
            final(self).format() == old(self).format(),
            final(self).sample_rate() == old(self).sample_rate(),
            !old(self).takes(chunk@.len()) ==> r == Err::<(), SinkError>(SinkError::InputTooLong),
            old(self).takes(chunk@.len()) ==> r == Ok::<(), SinkError>(()) || (old(self).format()
                == AudioFormat::Mp3 && r == Err::<(), SinkError>(SinkError::CodecFailure)),
            r is Ok ==> final(self).sample_count() == old(self).sample_count() + chunk@.len(),
            r is Ok ==> final(self).held() == old(self).held() + chunk@,
            r is Err ==> final(self).sample_count() == old(self).sample_count(),
            r is Err ==> final(self).held() == old(self).held(),
    {
        match self.format {
            AudioFormat::Mp3 => {
                let mut encoder = self.mp3.take().unwrap();
                let r = encoder.encode_samples(chunk);
                if r.is_ok() {
                    self.samples = self.samples + chunk.len() as u64;
                    proof {
                        lemma_quantized_seq_concat(self.taken@, chunk@);
                    }
                    self.taken = Ghost(self.taken@ + chunk@);
                }
                self.mp3 = Some(encoder);
                r
            },
            AudioFormat::Wav => {
                if chunk.len() > MAX_WAV_SAMPLES || self.samples > (MAX_WAV_SAMPLES - chunk.len()) as u64 {
                    return Err(SinkError::InputTooLong);
                }
                let mut i: usize = 0;
                while i < chunk.len()
                    invariant
                        0 <= i <= chunk@.len(),
                        self.pcm@ == old(self).pcm@ + chunk@.subrange(0, i as int),
                        self.samples == old(self).samples,
                        self.taken == old(self).taken,
                        self.format == old(self).format,
                        self.sample_rate == old(self).sample_rate,
                        self.mp3 == old(self).mp3,
                    decreases chunk@.len() - i,
                {
                    self.pcm.push(chunk[i]);
                    assert(chunk@.subrange(0, i as int).push(chunk@[i as int]) =~= chunk@.subrange(
                        0,
                        i as int + 1,
                    ));
                    i += 1;
                }
                assert(chunk@.subrange(0, chunk@.len() as int) =~= chunk@);
                self.samples = self.samples + chunk.len() as u64;
                self.taken = Ghost(self.taken@ + chunk@);
                Ok(())
            },
        }
    }

    /// Closes the sink and returns the bytes of the finished file.
    ///
    /// A WAV sink always gives its file, which holds one channel of
    /// 16-bit samples: the quantized value of every sample the sink took,
    /// in order. With an MP3 sink the codec may fail on the flush, which
    /// is a `CodecFailure`.
    pub fn finalize(self) -> (r: Result<Vec<u8>, SinkError>)
        requires
            self.wf(),
        ensures
            self.format() == AudioFormat::Wav ==> r is Ok,
            match r {
                Ok(bytes) => self.format() == AudioFormat::Wav ==> bytes@ == wav_image(
                    self.sample_rate(),
                    1,
                    16,
                    quantized_seq(self.held()),
                ),
                Err(e) => e == SinkError::CodecFailure,
            },
    {
        let EncodeSink { format, sample_rate, mp3, pcm, samples: _, taken: _ } = self;
        match format {
            AudioFormat::Mp3 => mp3.unwrap().finish(),
            AudioFormat::Wav => WavEncoder::new(sample_rate).encode_to_file(&pcm),
        }
    }

    /// Closes the sink without a file and returns the number of samples
    /// that are discarded with it.
    pub fn abandon(self) -> (discarded: u64)
        ensures
            discarded as nat == self.sample_count(),
    {
        self.samples
    }

    /// The number of samples the sink has taken.
    pub fn samples_taken(&self) -> (n: u64)
        ensures
            n as nat == self.sample_count(),
    {
        self.samples
    }
}

} // verus!
