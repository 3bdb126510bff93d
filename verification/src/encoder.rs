//! The encoder for recordings that are mixed and encoded in one piece
//! once they have ended.

use vstd::prelude::*;
use crate::codec::SinkError;
use crate::mp3_encoder::{select_bitrate, StreamingMp3Encoder, WORST_QUALITY};
use crate::dual_recorder::{lemma_mixed_values, mixed, overlap, remainder};
use crate::sample::{mean_sample, quantize_chunk, quantized_seq};

verus! {

/// The number of samples per channel in one MP3 frame.
pub const FRAME_SAMPLES: usize = 1152;

/// The length of the longer of two lines.
pub open spec fn longer_len(mic: Seq<i32>, speaker: Seq<i32>) -> nat {
    if mic.len() > speaker.len() {
        mic.len()
    } else {
        speaker.len()
    }
}

/// The mix of two whole lines: over their overlap the mean of the two
/// samples at each place, and behind it what the longer line holds
/// beyond the other, as it is. Nothing is limited here: that is left to
/// the quantization.
pub open spec fn mixed_whole(mic: Seq<i32>, speaker: Seq<i32>) -> Seq<i32> {
    mixed(mic, speaker) + remainder(mic, overlap(mic, speaker)) + remainder(
        speaker,
        overlap(mic, speaker),
    )
}

/// The mix of two whole lines is as long as the longer line.
pub proof fn lemma_mixed_whole_len(mic: Seq<i32>, speaker: Seq<i32>)
    ensures
        mixed_whole(mic, speaker).len() == longer_len(mic, speaker),
{
}

/// Settings of an MP3 encoding of one or two interleaved channels.
#[derive(Debug, Clone, Copy, PartialEq, Eq, Structural)]
pub struct Mp3Encoder {
    pub sample_rate: u32,
    pub channels: u16,
    pub bitrate: u32,
    pub quality: u8,
}

impl Mp3Encoder {
    /// Settings with the quality limited to LAME's range of 0 to 9.
    pub fn new(sample_rate: u32, channels: u16, bitrate: u32, quality: u8) -> (e: Mp3Encoder)
        ensures
            e.sample_rate == sample_rate,
            e.channels == channels,
            e.bitrate == bitrate,
            e.quality == if quality > WORST_QUALITY {
                WORST_QUALITY
            } else {
                quality
            },
    {
        Mp3Encoder {
            sample_rate,
            channels,
            bitrate,
            quality: if quality > WORST_QUALITY {
                WORST_QUALITY
            } else {
                quality
            },
        }
    }

    /// The reason for which the encoder refuses input of `len` samples
    /// before the codec is asked, if there is one: it encodes one channel
    /// or two, and the input must be made of whole frames of its
    /// channels.
    pub open spec fn takes(&self, len: nat) -> Option<SinkError> {
        if self.channels != 1 && self.channels != 2 {
            Some(SinkError::UnsupportedChannels)
        } else if len % (self.channels as nat) != 0 {
            Some(SinkError::UnfinishedFrame)
        } else {
            None
        }
    }

    /// Makes a fresh encoder for these settings, at the best quality the
    /// codec has, and hands it interleaved PCM data one MP3 frame at a
    /// time. The encoder that comes back has been fed the quantized value
    /// of every sample, in order, and nothing else; it still holds back
    /// what a flush brings out.
    ///
    /// Input that the encoder cannot take is refused before the codec is
    /// asked, with the error that `takes` gives. For any other input the
    /// codec decides: it may refuse the settings or fail on a frame.
    pub fn feed_frames(&self, pcm_data: &Vec<i32>) -> (r: Result<StreamingMp3Encoder, SinkError>)
        ensures
            match r {
                Ok(enc) => self.takes(pcm_data@.len()) is None && enc.fed() == quantized_seq(pcm_data@)
                    && enc.sample_count() == pcm_data@.len() && enc.stereo() == (self.channels == 2),
                Err(e) => match self.takes(pcm_data@.len()) {
                    Some(refusal) => e == refusal,
                    None => e == SinkError::EncoderUnavailable || e == SinkError::InvalidSettings || e
                        == SinkError::CodecFailure,
                },
            },
    {
        if self.channels != 1 && self.channels != 2 {
            return Err(SinkError::UnsupportedChannels);
        }
        let stereo: bool = self.channels == 2;
        if stereo && pcm_data.len() % 2 != 0 {
            return Err(SinkError::UnfinishedFrame);
        }
        let frame_size: usize = if stereo {
            FRAME_SAMPLES * 2
        } else {
            FRAME_SAMPLES
        };
        let pcm = quantize_chunk(pcm_data);
        let mut encoder = match StreamingMp3Encoder::with_settings(
            self.sample_rate,
            stereo,
            select_bitrate(self.bitrate),
            mp3lame_encoder::Quality::Best,
        ) {
            Ok(encoder) => encoder,
            Err(e) => {
                return Err(e);
            },
        };
        let len: usize = pcm.len();
        let mut start: usize = 0;
        proof {
            assert(pcm@.subrange(0, 0) =~= Seq::<i16>::empty());
        }
        while start < len
            invariant
                len == pcm@.len(),
                0 <= start <= len,
                frame_size == FRAME_SAMPLES || frame_size == FRAME_SAMPLES * 2,
                stereo ==> frame_size % 2 == 0 && len % 2 == 0 && start % 2 == 0,
                self.takes(pcm_data@.len()) is None,
                encoder.stereo() == stereo,
                encoder.sample_count() == start,
                encoder.fed() == pcm@.subrange(0, start as int),
            decreases len - start,
        {
            let end: usize = if len - start > frame_size {
                start + frame_size
            } else {
                len
            };
            let frame = copy_range(&pcm, start, end);
            match encoder.encode_pcm(&frame) {
                Ok(()) => {},
                Err(e) => {
                    return Err(e);
                },
            }
            proof {
                assert(pcm@.subrange(0, start as int) + pcm@.subrange(start as int, end as int)
                    =~= pcm@.subrange(0, end as int));
            }
            start = end;
        }
        proof {
            assert(pcm@.subrange(0, len as int) =~= pcm@);
        }
        Ok(encoder)
    }

    /// Encodes interleaved PCM data and returns the bytes of the MP3
    /// file: what `feed_frames` has encoded, flushed.
    ///
    /// Input that the encoder cannot take is refused before the codec is
    /// asked, with the error that `takes` gives. For any other input the
    /// codec decides: it may refuse the settings or fail on a frame.
    pub fn encode_to_file(&self, pcm_data: &Vec<i32>) -> (r: Result<Vec<u8>, SinkError>)
        ensures
            self.takes(pcm_data@.len()) matches Some(e) ==> r == Err::<Vec<u8>, SinkError>(e),
            self.takes(pcm_data@.len()) is None ==> (r matches Err(e) ==> e
                == SinkError::EncoderUnavailable || e == SinkError::InvalidSettings || e
                == SinkError::CodecFailure),
    {
        match self.feed_frames(pcm_data) {
            Ok(encoder) => encoder.finish(),
            Err(e) => Err(e),
        }
    }

    /// Mixes the whole microphone line with the whole speaker line. Where
    /// both lines hold a sample the mix is their mean; where one line has
    /// ended the other passes unmixed. No sample is limited.
    pub fn mix_channels(mic_data: &Vec<i32>, speaker_data: &Vec<i32>) -> (out: Vec<i32>)
        ensures
            out@ == mixed_whole(mic_data@, speaker_data@),
    {
        let max_len: usize = if mic_data.len() > speaker_data.len() {
            mic_data.len()
        } else {
            speaker_data.len()
        };
        let mut out: Vec<i32> = Vec::new();
        let mut i: usize = 0;
        while i < max_len
            invariant
                0 <= i <= max_len,
                max_len == longer_len(mic_data@, speaker_data@),
                out@.len() == i,
                forall|k: int| 0 <= k < i ==> out@[k] == mixed_whole(mic_data@, speaker_data@)[k],
            decreases max_len - i,
        {
            let sample: i32 = if i < mic_data.len() && i < speaker_data.len() {
                mean_sample(mic_data[i], speaker_data[i])
            } else if i < mic_data.len() {
                mic_data[i]
            } else {
                speaker_data[i]
            };
            proof {
                lemma_mixed_values(mic_data@, speaker_data@);
            }
            out.push(sample);
            i += 1;
        }
        assert(out@ =~= mixed_whole(mic_data@, speaker_data@));
        out
    }
}

/// A copy of the samples from `start` up to `end`.
pub fn copy_range(pcm: &Vec<i16>, start: usize, end: usize) -> (part: Vec<i16>)
    requires
        start <= end <= pcm@.len(),
    ensures
        part@ == pcm@.subrange(start as int, end as int),
{
    let mut part: Vec<i16> = Vec::new();
    let mut i: usize = start;
    while i < end
        invariant
            start <= i <= end <= pcm@.len(),
            part@ == pcm@.subrange(start as int, i as int),
        decreases end - i,
    {
        part.push(pcm[i]);
        assert(part@ =~= pcm@.subrange(start as int, i as int + 1));
        i += 1;
    }
    part
}

} // verus!
