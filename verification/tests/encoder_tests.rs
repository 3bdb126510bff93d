use auto_audio_recorder::codec::SinkError;
use auto_audio_recorder::encode_sink::EncodeSink;
use auto_audio_recorder::encoder;
use auto_audio_recorder::mp3_encoder::{Mp3Encoder, StreamingMp3Encoder, WavEncoder};
use auto_audio_recorder::smart_recorder::AudioFormat;

fn tone(sample_rate: u32, seconds: f32, frequency: f32, amplitude: f32) -> Vec<i32> {
    (0..(seconds * sample_rate as f32) as usize)
        .map(|i| {
            let t = i as f32 / sample_rate as f32;
            ((2.0 * std::f32::consts::PI * frequency * t).sin() * amplitude * 32768.0) as i32
        })
        .collect()
}

fn wav_file(sample_rate: u32, pcm: &[i16]) -> Vec<u8> {
    let data_len = (pcm.len() * 2) as u32;
    let mut bytes = Vec::new();
    bytes.extend_from_slice(b"RIFF");
    bytes.extend_from_slice(&(36 + data_len).to_le_bytes());
    bytes.extend_from_slice(b"WAVE");
    bytes.extend_from_slice(b"fmt ");
    bytes.extend_from_slice(&16u32.to_le_bytes());
    bytes.extend_from_slice(&1u16.to_le_bytes());
    bytes.extend_from_slice(&1u16.to_le_bytes());
    bytes.extend_from_slice(&sample_rate.to_le_bytes());
    bytes.extend_from_slice(&(sample_rate * 2).to_le_bytes());
    bytes.extend_from_slice(&2u16.to_le_bytes());
    bytes.extend_from_slice(&16u16.to_le_bytes());
    bytes.extend_from_slice(b"data");
    bytes.extend_from_slice(&data_len.to_le_bytes());
    for s in pcm {
        bytes.extend_from_slice(&s.to_le_bytes());
    }
    bytes
}

#[test]
fn test_wav_encoder() {
    let encoder = WavEncoder::new(44100);

    // one second of a 440 Hz sine wave
    let samples = tone(44100, 1.0, 440.0, 0.5);

    let bytes = encoder.encode_to_file(&samples).unwrap();
    assert_eq!(bytes.len(), 44 + 2 * 44100);
}

#[test]
fn a_wav_file_holds_the_quantized_samples() {
    let encoder = WavEncoder::new(8000);
    let bytes = encoder.encode_to_file(&vec![0, 32768, -32768, 16384, 100_000, -2]).unwrap();
    assert_eq!(bytes, wav_file(8000, &[0, 32767, -32767, 16383, 32767, -1]));
}

#[test]
fn an_empty_recording_is_a_wav_file_of_a_header() {
    let bytes = WavEncoder::new(48000).encode_to_file(&vec![]).unwrap();
    assert_eq!(bytes, wav_file(48000, &[]));
    assert_eq!(bytes.len(), 44);
}

#[test]
fn a_wav_file_needs_a_sample_rate_it_can_hold() {
    assert_eq!(WavEncoder::new(0).encode_to_file(&vec![1, 2, 3]), Err(SinkError::InvalidSettings));
    assert_eq!(WavEncoder::new(0x4000_0000).encode_to_file(&vec![1, 2, 3]), Err(SinkError::InvalidSettings));
    assert!(WavEncoder::new(0x3fff_ffff).encode_to_file(&vec![1, 2, 3]).is_ok());
    assert!(WavEncoder::new(1).encode_to_file(&vec![1, 2, 3]).is_ok());
}

#[test]
fn the_quality_of_an_mp3_encoder_is_limited_to_nine() {
    let e = Mp3Encoder::new(48000, 128, 2);
    assert_eq!((e.sample_rate, e.bit_rate, e.quality), (48000, 128, 2));
    assert_eq!(Mp3Encoder::new(48000, 128, 9).quality, 9);
    assert_eq!(Mp3Encoder::new(48000, 128, 10).quality, 9);
    assert_eq!(Mp3Encoder::new(48000, 128, 255).quality, 9);
    let e = encoder::Mp3Encoder::new(44100, 2, 192, 200);
    assert_eq!((e.sample_rate, e.channels, e.bitrate, e.quality), (44100, 2, 192, 9));
    assert_eq!(encoder::Mp3Encoder::new(44100, 1, 192, 0).quality, 0);
}

#[test]
fn an_mp3_file_begins_with_a_frame_header() {
    let samples = tone(44100, 1.0, 440.0, 0.5);
    let bytes = Mp3Encoder::new(44100, 128, 2).encode_to_file(&samples).unwrap();
    assert!(bytes.len() > 1000);
    assert!(bytes.len() < samples.len());
    assert_eq!(bytes[0], 0xff);
    assert_eq!(bytes[1] & 0xe0, 0xe0);
}

#[test]
fn a_streaming_encoder_counts_what_it_takes_and_only_grows() {
    let mut enc = StreamingMp3Encoder::new(48000, 128, 2).unwrap();
    assert_eq!(enc.samples_encoded(), 0);
    assert_eq!(enc.encoded_len(), 0);
    let samples = tone(48000, 0.5, 440.0, 0.5);
    let mut seen = 0;
    for part in samples.chunks(2400) {
        assert_eq!(enc.encode_samples(&part.to_vec()), Ok(()));
        assert!(enc.encoded_len() >= seen);
        seen = enc.encoded_len();
    }
    assert_eq!(enc.encode_samples(&vec![]), Ok(()));
    assert_eq!(enc.samples_encoded(), 24000);
    assert!(seen > 0);
    let data = enc.finish().unwrap();
    // the flush adds what the codec still held back
    assert!(data.len() > seen);
    assert_eq!(data[0], 0xff);
}

#[test]
fn a_streaming_encoder_comes_from_the_settings() {
    let enc = Mp3Encoder::new(44100, 320, 0).create_streaming_encoder().unwrap();
    assert_eq!(enc.samples_encoded(), 0);
    let other = Mp3Encoder::new(44100, 12345, 7).create_streaming_encoder();
    assert!(other.is_ok());
}

#[test]
fn whole_lines_are_mixed_over_their_overlap_and_a_lone_line_passes_unmixed() {
    assert_eq!(encoder::Mp3Encoder::mix_channels(&vec![100, 200, 300], &vec![300]), vec![200, 200, 300]);
    assert_eq!(encoder::Mp3Encoder::mix_channels(&vec![10], &vec![30, -8, 9]), vec![20, -8, 9]);
    assert_eq!(encoder::Mp3Encoder::mix_channels(&vec![], &vec![-8, 9]), vec![-8, 9]);
    assert_eq!(encoder::Mp3Encoder::mix_channels(&vec![7, 7], &vec![]), vec![7, 7]);
    assert_eq!(encoder::Mp3Encoder::mix_channels(&vec![], &vec![]), Vec::<i32>::new());
}

#[test]
fn a_mix_of_whole_lines_is_not_limited() {
    // two lines at one and a half times full scale give one and a half times full scale
    assert_eq!(encoder::Mp3Encoder::mix_channels(&vec![49152, -49152], &vec![49152, -49152]), vec![49152, -49152]);
    assert_eq!(
        encoder::Mp3Encoder::mix_channels(&vec![60000, -60000, 32768], &vec![50000, -50000, 32768]),
        vec![55000, -55000, 32768]
    );
    let mic = vec![1, 2, 3];
    let speaker = vec![5, 6];
    encoder::Mp3Encoder::mix_channels(&mic, &speaker);
    assert_eq!((mic, speaker), (vec![1, 2, 3], vec![5, 6]));
}

#[test]
fn the_frame_encoder_takes_one_or_two_channels() {
    let samples = tone(44100, 0.2, 440.0, 0.5);
    assert_eq!(
        encoder::Mp3Encoder::new(44100, 0, 128, 2).encode_to_file(&samples),
        Err(SinkError::UnsupportedChannels)
    );
    assert_eq!(
        encoder::Mp3Encoder::new(44100, 3, 128, 2).encode_to_file(&samples),
        Err(SinkError::UnsupportedChannels)
    );
    let mono = encoder::Mp3Encoder::new(44100, 1, 128, 2).encode_to_file(&samples).unwrap();
    assert!(mono.len() > 0);
    assert_eq!(samples.len() % 2, 0);
    assert_eq!(mono[0], 0xff);
    let stereo = encoder::Mp3Encoder::new(44100, 2, 128, 2).encode_to_file(&samples).unwrap();
    assert!(stereo.len() > 0);
    assert_eq!(stereo[0], 0xff);
    // the same samples are half as many frames when they are two channels
    assert!(stereo.len() < mono.len());
}

#[test]
fn stereo_input_must_end_with_a_whole_frame() {
    let e = encoder::Mp3Encoder::new(44100, 2, 128, 2);
    assert_eq!(e.encode_to_file(&vec![1, 2, 3]), Err(SinkError::UnfinishedFrame));
    assert!(e.encode_to_file(&vec![1, 2, 3, 4]).is_ok());
    assert!(encoder::Mp3Encoder::new(44100, 1, 128, 2).encode_to_file(&vec![1, 2, 3]).is_ok());
}

#[test]
fn a_whole_recording_goes_to_the_codec_before_the_flush() {
    let samples = tone(44100, 0.2, 440.0, 0.5);
    let fed = Mp3Encoder::new(44100, 128, 2).encode_whole(&samples).unwrap();
    assert_eq!(fed.samples_encoded(), samples.len() as u64);
    let before = fed.encoded_len();
    let bytes = fed.finish().unwrap();
    assert!(bytes.len() > before);
    assert_eq!(bytes, Mp3Encoder::new(44100, 128, 2).encode_to_file(&samples).unwrap());

    let framed = encoder::Mp3Encoder::new(44100, 2, 128, 2).feed_frames(&samples).unwrap();
    assert_eq!(framed.samples_encoded(), samples.len() as u64);
    assert_eq!(
        framed.finish().unwrap(),
        encoder::Mp3Encoder::new(44100, 2, 128, 2).encode_to_file(&samples).unwrap()
    );
    assert!(matches!(
        encoder::Mp3Encoder::new(44100, 2, 128, 2).feed_frames(&vec![1, 2, 3]),
        Err(SinkError::UnfinishedFrame)
    ));
    assert!(matches!(
        encoder::Mp3Encoder::new(44100, 5, 128, 2).feed_frames(&vec![1, 2, 3]),
        Err(SinkError::UnsupportedChannels)
    ));
}

#[test]
fn an_encoder_for_two_channels_takes_whole_frames_of_pcm() {
    let mut enc = StreamingMp3Encoder::with_settings(
        44100,
        true,
        mp3lame_encoder::Bitrate::Kbps128,
        mp3lame_encoder::Quality::Good,
    )
    .unwrap();
    assert_eq!(enc.encode_pcm(&vec![1, 2, 3]), Err(SinkError::UnfinishedFrame));
    assert_eq!(enc.samples_encoded(), 0);
    assert_eq!(enc.encode_pcm(&vec![1, 2, 3, 4]), Ok(()));
    assert_eq!(enc.encode_samples(&vec![5, 6]), Ok(()));
    assert_eq!(enc.encode_samples(&vec![7]), Err(SinkError::UnfinishedFrame));
    assert_eq!(enc.samples_encoded(), 6);
    let mut mono = StreamingMp3Encoder::new(44100, 128, 2).unwrap();
    assert_eq!(mono.encode_pcm(&vec![1, 2, 3]), Ok(()));
    assert_eq!(mono.samples_encoded(), 3);
}

#[test]
fn copy_range_copies_a_part() {
    assert_eq!(encoder::copy_range(&vec![1, 2, 3, 4, 5], 1, 4), vec![2, 3, 4]);
    assert_eq!(encoder::copy_range(&vec![1, 2, 3], 3, 3), Vec::<i16>::new());
}

#[test]
fn a_wav_sink_writes_what_it_took_in_order() {
    let mut sink = EncodeSink::open(AudioFormat::Wav, 16000, 128, 2).unwrap();
    assert_eq!(sink.samples_taken(), 0);
    assert_eq!(sink.encode(&vec![0, 32768]), Ok(()));
    assert_eq!(sink.encode(&vec![]), Ok(()));
    assert_eq!(sink.encode(&vec![-32768]), Ok(()));
    assert_eq!(sink.samples_taken(), 3);
    assert_eq!(sink.finalize(), Ok(wav_file(16000, &[0, 32767, -32767])));
}

#[test]
fn a_wav_sink_opens_only_at_a_rate_a_file_can_hold() {
    assert!(matches!(EncodeSink::open(AudioFormat::Wav, 0, 128, 2), Err(SinkError::InvalidSettings)));
    assert!(matches!(EncodeSink::open(AudioFormat::Wav, 0x4000_0000, 128, 2), Err(SinkError::InvalidSettings)));
    assert!(EncodeSink::open(AudioFormat::Wav, 44100, 128, 2).is_ok());
}

#[test]
fn an_mp3_sink_takes_many_small_chunks() {
    let mut sink = EncodeSink::open(AudioFormat::Mp3, 44100, 128, 2).unwrap();
    let samples = tone(44100, 0.5, 440.0, 0.5);
    for part in samples.chunks(100) {
        assert_eq!(sink.encode(&part.to_vec()), Ok(()));
    }
    assert_eq!(sink.samples_taken(), samples.len() as u64);
    let bytes = sink.finalize().unwrap();
    assert!(bytes.len() > 0);
    assert_eq!(bytes[0], 0xff);
}

#[test]
fn an_abandoned_sink_reports_what_it_discards() {
    let mut sink = EncodeSink::open(AudioFormat::Wav, 44100, 128, 2).unwrap();
    sink.encode(&vec![1, 2, 3, 4]).unwrap();
    assert_eq!(sink.abandon(), 4);
    let mut sink = EncodeSink::open(AudioFormat::Mp3, 44100, 128, 2).unwrap();
    sink.encode(&vec![1, 2]).unwrap();
    assert_eq!(sink.abandon(), 2);
}
