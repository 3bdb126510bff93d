use auto_audio_recorder::channel_mixer::{MixedChunk, SourceCoverage};
use auto_audio_recorder::codec::SinkError;
use auto_audio_recorder::config::AudioConfig;
use auto_audio_recorder::recorder::{
    save_recording, AcceptOutcome, Recorder, RecorderManager, RecordingState, SaveError, SessionMode,
    SessionOutcome, SessionPolicy,
};
use auto_audio_recorder::smart_recorder::AudioFormat;

fn policy(save_format: AudioFormat) -> SessionPolicy {
    SessionPolicy {
        sample_rate: 8000,
        save_format,
        bit_rate: 128,
        quality: 2,
        min_recording_ms: 3000,
        silence_threshold: 1000,
        silence_duration_ms: 2000,
    }
}

fn mixed(samples: Vec<i32>, coverage: SourceCoverage) -> MixedChunk {
    MixedChunk { samples, sequence: 0, timestamp_ms: 0, coverage }
}

fn loud() -> MixedChunk {
    mixed(vec![16384; 800], SourceCoverage::Both)
}

fn quiet() -> MixedChunk {
    mixed(vec![10; 800], SourceCoverage::MicOnly)
}

#[test]
fn a_new_recorder_is_idle() {
    let recorder = Recorder::new(policy(AudioFormat::Wav));
    assert_eq!(recorder.get_state(), RecordingState::Idle);
    assert!(!recorder.is_recording());
    assert_eq!(recorder.last_outcome(), SessionOutcome::Nothing);
    assert_eq!(recorder.sinks_opened(), 0);
    assert_eq!(recorder.samples_accepted(), 0);
}

#[test]
fn a_recording_stopped_too_early_is_abandoned() {
    let mut recorder = Recorder::new(policy(AudioFormat::Wav));
    assert_eq!(recorder.start_recording(SessionMode::Triggered, 1000, "call".to_string()), Ok(()));
    assert_eq!(recorder.accept(&loud(), 1100), AcceptOutcome::Accepted);
    assert_eq!(recorder.stop_recording(3999), Ok(None));
    assert_eq!(recorder.last_outcome(), SessionOutcome::Abandoned);
    assert_eq!(recorder.get_state(), RecordingState::Idle);
}

#[test]
fn a_recording_of_the_minimum_duration_is_kept() {
    let mut recorder = Recorder::new(policy(AudioFormat::Wav));
    recorder.start_recording(SessionMode::Triggered, 1000, "call".to_string()).unwrap();
    recorder.accept(&mixed(vec![32768, 0, -32768], SourceCoverage::Both), 1100);
    let artifact = recorder.stop_recording(4000).unwrap().unwrap();
    assert_eq!(artifact.name, "call");
    assert_eq!(artifact.duration_ms, 3000);
    assert_eq!(artifact.sample_count, 3);
    assert_eq!(artifact.data.len(), 44 + 6);
    assert_eq!(&artifact.data[44..], &[0xff, 0x7f, 0, 0, 0x01, 0x80]);
    assert_eq!(recorder.last_outcome(), SessionOutcome::Finalized);
    assert_eq!(recorder.get_state(), RecordingState::Idle);
}

#[test]
fn starting_twice_is_starting_once() {
    let mut recorder = Recorder::new(policy(AudioFormat::Wav));
    assert_eq!(recorder.start_recording(SessionMode::Triggered, 1000, "first".to_string()), Ok(()));
    recorder.accept(&loud(), 1500);
    assert_eq!(recorder.start_recording(SessionMode::Manual, 2000, "second".to_string()), Ok(()));
    assert_eq!(recorder.sinks_opened(), 1);
    assert_eq!(recorder.samples_accepted(), 800);
    assert_eq!(recorder.mode(), SessionMode::Triggered);
    assert_eq!(recorder.get_state(), RecordingState::Recording);
    let artifact = recorder.stop_recording(4500).unwrap().unwrap();
    assert_eq!(artifact.name, "first");
    assert_eq!(artifact.duration_ms, 3500);
    assert_eq!(artifact.sample_count, 800);
}

#[test]
fn each_recording_opens_one_sink_and_starts_from_zero() {
    let mut recorder = Recorder::new(policy(AudioFormat::Wav));
    recorder.start_recording(SessionMode::Manual, 0, "a".to_string()).unwrap();
    recorder.accept(&loud(), 10);
    recorder.stop_recording(5000).unwrap();
    assert_eq!(recorder.samples_accepted(), 800);
    recorder.start_recording(SessionMode::Manual, 6000, "b".to_string()).unwrap();
    assert_eq!(recorder.sinks_opened(), 2);
    assert_eq!(recorder.samples_accepted(), 0);
    let artifact = recorder.stop_recording(9000).unwrap().unwrap();
    assert_eq!(artifact.name, "b");
    assert_eq!(artifact.sample_count, 0);
    assert_eq!(artifact.data.len(), 44);
}

#[test]
fn stop_without_a_recording_does_nothing() {
    let mut recorder = Recorder::new(policy(AudioFormat::Mp3));
    assert_eq!(recorder.stop_recording(100), Ok(None));
    assert_eq!(recorder.last_outcome(), SessionOutcome::Nothing);
    assert_eq!(recorder.get_state(), RecordingState::Idle);
}

#[test]
fn a_chunk_without_a_recording_is_ignored() {
    let mut recorder = Recorder::new(policy(AudioFormat::Wav));
    assert_eq!(recorder.accept(&loud(), 100), AcceptOutcome::Ignored);
    assert_eq!(recorder.samples_accepted(), 0);
    recorder.start_recording(SessionMode::Manual, 0, "a".to_string()).unwrap();
    recorder.stop_recording(10).unwrap();
    assert_eq!(recorder.accept(&loud(), 100), AcceptOutcome::Ignored);
}

#[test]
fn silence_stops_a_manual_recording() {
    let mut recorder = Recorder::new(policy(AudioFormat::Wav));
    recorder.start_recording(SessionMode::Manual, 1000, "manual".to_string()).unwrap();
    assert_eq!(recorder.accept(&loud(), 1500), AcceptOutcome::Accepted);
    assert_eq!(recorder.accept(&quiet(), 2500), AcceptOutcome::Accepted);
    assert_eq!(recorder.accept(&quiet(), 3500), AcceptOutcome::Accepted);
    assert_eq!(recorder.accept(&quiet(), 3501), AcceptOutcome::StopRecommended);
    // the recorder only recommends: it keeps recording until it is stopped
    assert_eq!(recorder.get_state(), RecordingState::Recording);
    assert_eq!(recorder.accept(&loud(), 3600), AcceptOutcome::Accepted);
    assert_eq!(recorder.accept(&quiet(), 5600), AcceptOutcome::Accepted);
    assert_eq!(recorder.accept(&quiet(), 5601), AcceptOutcome::StopRecommended);
}

#[test]
fn silence_does_not_stop_a_triggered_recording() {
    let mut recorder = Recorder::new(policy(AudioFormat::Wav));
    recorder.start_recording(SessionMode::Triggered, 1000, "call".to_string()).unwrap();
    assert_eq!(recorder.accept(&loud(), 1500), AcceptOutcome::Accepted);
    assert_eq!(recorder.accept(&quiet(), 3501), AcceptOutcome::Accepted);
    assert_eq!(recorder.accept(&quiet(), 60_000), AcceptOutcome::Accepted);
    assert_eq!(recorder.get_state(), RecordingState::Recording);
}

#[test]
fn the_silence_watch_begins_at_the_start() {
    let mut recorder = Recorder::new(policy(AudioFormat::Wav));
    recorder.start_recording(SessionMode::Manual, 1000, "manual".to_string()).unwrap();
    assert_eq!(recorder.accept(&quiet(), 3000), AcceptOutcome::Accepted);
    assert_eq!(recorder.accept(&quiet(), 3001), AcceptOutcome::StopRecommended);
}

#[test]
fn a_chunk_at_the_threshold_is_loud() {
    let mut recorder = Recorder::new(policy(AudioFormat::Wav));
    recorder.start_recording(SessionMode::Manual, 0, "manual".to_string()).unwrap();
    assert_eq!(recorder.accept(&mixed(vec![1000; 10], SourceCoverage::Both), 5000), AcceptOutcome::Accepted);
    assert_eq!(recorder.accept(&mixed(vec![999; 10], SourceCoverage::Both), 7001), AcceptOutcome::StopRecommended);
}

#[test]
fn a_clock_that_goes_back_counts_as_no_time() {
    let mut recorder = Recorder::new(policy(AudioFormat::Wav));
    recorder.start_recording(SessionMode::Manual, 5000, "manual".to_string()).unwrap();
    assert_eq!(recorder.accept(&quiet(), 100), AcceptOutcome::Accepted);
    assert_eq!(recorder.stop_recording(100), Ok(None));
    assert_eq!(recorder.last_outcome(), SessionOutcome::Abandoned);
}

#[test]
fn the_accumulated_duration_is_samples_over_rate() {
    let mut recorder = Recorder::new(policy(AudioFormat::Wav));
    assert_eq!(recorder.accumulated_ms(), 0);
    recorder.start_recording(SessionMode::Manual, 0, "manual".to_string()).unwrap();
    recorder.accept(&loud(), 10);
    assert_eq!(recorder.accumulated_ms(), 100);
    recorder.accept(&mixed(vec![0; 7], SourceCoverage::Both), 20);
    assert_eq!(recorder.accumulated_ms(), 100);
    recorder.accept(&mixed(vec![0; 1], SourceCoverage::Both), 20);
    assert_eq!(recorder.accumulated_ms(), 101);
    let mut no_rate = policy(AudioFormat::Wav);
    no_rate.sample_rate = 0;
    assert_eq!(Recorder::new(no_rate).accumulated_ms(), 0);
}

#[test]
fn a_sink_that_cannot_be_opened_leaves_the_recorder_idle() {
    let mut bad = policy(AudioFormat::Wav);
    bad.sample_rate = 0;
    let mut recorder = Recorder::new(bad);
    assert_eq!(
        recorder.start_recording(SessionMode::Manual, 0, "manual".to_string()),
        Err(SinkError::InvalidSettings)
    );
    assert_eq!(recorder.get_state(), RecordingState::Idle);
    assert_eq!(recorder.sinks_opened(), 0);
    assert_eq!(recorder.stop_recording(10_000), Ok(None));
}

#[test]
fn an_mp3_recording_ends_in_an_mp3_file() {
    let mut recorder = Recorder::new(policy(AudioFormat::Mp3));
    recorder.start_recording(SessionMode::Triggered, 0, "call".to_string()).unwrap();
    for i in 0..20u64 {
        assert_eq!(recorder.accept(&loud(), i * 100), AcceptOutcome::Accepted);
    }
    let artifact = recorder.stop_recording(3000).unwrap().unwrap();
    assert_eq!(artifact.sample_count, 16000);
    assert_eq!(artifact.duration_ms, 3000);
    assert!(artifact.data.len() > 0);
    assert_eq!(artifact.data[0], 0xff);
}

#[test]
fn a_manager_tracks_the_capture() {
    let mut manager = RecorderManager::new(policy(AudioFormat::Wav));
    assert_eq!(manager.get_state(), RecordingState::Idle);
    assert!(manager.start());
    assert!(!manager.start());
    assert!(manager.stop());
    assert!(!manager.stop());
    assert!(manager.start());
}

#[test]
fn a_manager_passes_recordings_on() {
    let mut manager = RecorderManager::new(policy(AudioFormat::Wav));
    assert_eq!(manager.stop_recording(0), Ok(None));
    assert_eq!(manager.start_recording(SessionMode::Triggered, 0, "call".to_string()), Ok(()));
    assert_eq!(manager.get_state(), RecordingState::Recording);
    assert_eq!(manager.accept(&loud(), 5), AcceptOutcome::Accepted);
    let artifact = manager.stop_recording(3000).unwrap().unwrap();
    assert_eq!(artifact.sample_count, 800);
    assert_eq!(manager.get_state(), RecordingState::Idle);
}

#[test]
fn a_recording_without_samples_cannot_be_saved() {
    let audio = AudioConfig { sample_rate: 44100, bitrate: 128, channels: 1, quality: 2 };
    assert_eq!(save_recording(&vec![], &vec![], &audio), Err(SaveError::NoAudio));
}

#[test]
fn a_recording_kept_whole_is_mixed_and_encoded() {
    let audio = AudioConfig { sample_rate: 44100, bitrate: 128, channels: 1, quality: 2 };
    let mic: Vec<i32> = (0..4410).map(|i| (i % 200) * 100).collect();
    let bytes = save_recording(&mic, &vec![], &audio).unwrap();
    assert!(bytes.len() > 0);
    assert_eq!(bytes[0], 0xff);
    let stereo = AudioConfig { sample_rate: 44100, bitrate: 128, channels: 2, quality: 2 };
    assert_eq!(
        save_recording(&vec![1, 2, 3], &vec![1], &stereo),
        Err(SaveError::Encode(SinkError::UnfinishedFrame))
    );
    let none = AudioConfig { sample_rate: 44100, bitrate: 128, channels: 0, quality: 2 };
    assert_eq!(save_recording(&vec![1], &vec![], &none), Err(SaveError::Encode(SinkError::UnsupportedChannels)));
}
