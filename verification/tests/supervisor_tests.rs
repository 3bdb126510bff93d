use auto_audio_recorder::dual_recorder::DualChannelRecorder;
use auto_audio_recorder::frame_queue::SampleChunk;
use auto_audio_recorder::recorder::{SessionMode, SessionOutcome, SessionPolicy};
use auto_audio_recorder::smart_recorder::AudioFormat;
use auto_audio_recorder::supervisor::{SessionSupervisor, SupervisorEvent};

const RATE: u32 = 16000;

fn policy() -> SessionPolicy {
    SessionPolicy {
        sample_rate: RATE,
        save_format: AudioFormat::Wav,
        bit_rate: 128,
        quality: 2,
        min_recording_ms: 3000,
        silence_threshold: 500,
        silence_duration_ms: 2000,
    }
}

/// A 440 Hz tone of amplitude 0.5, from sample `from` up to sample `to`.
fn tone(from: usize, to: usize) -> Vec<i32> {
    (from..to)
        .map(|i| {
            let t = i as f64 / RATE as f64;
            ((2.0 * std::f64::consts::PI * 440.0 * t).sin() * 0.5 * 32768.0) as i32
        })
        .collect()
}

#[test]
fn a_triggered_recording_runs_from_activation_to_deactivation() {
    let mut supervisor = SessionSupervisor::new(policy(), 2);
    let mut capture = DualChannelRecorder::new(RATE).start_recording();

    assert_eq!(supervisor.on_poll(false, 0, String::new()), SupervisorEvent::Nothing);
    assert_eq!(supervisor.on_poll(true, 1000, "Zoom.exe".to_string()), SupervisorEvent::Started);
    assert!(supervisor.is_recording());
    assert_eq!(supervisor.mode(), SessionMode::Triggered);

    // ten seconds of tone on both lines, in chunks of 10 ms, pumped every 50 ms
    let chunk_len = (RATE / 100) as usize;
    let mut now = 1000;
    for i in 0..1000usize {
        let samples = tone(i * chunk_len, (i + 1) * chunk_len);
        let chunk = SampleChunk { samples, sequence: i as u64, timestamp_ms: now };
        assert!(capture.mic_receiver.push(chunk.clone()));
        assert!(capture.speaker_receiver.push(chunk));
        now += 10;
        if i % 5 == 4 {
            assert_eq!(supervisor.pump(&mut capture, now), SupervisorEvent::Nothing);
            // the oracle keeps saying yes
            assert_eq!(supervisor.on_poll(true, now, "Zoom.exe".to_string()), SupervisorEvent::Nothing);
        }
    }
    assert_eq!(now, 11_000);
    assert_eq!(supervisor.samples_accepted(), 10 * RATE as u64);

    match supervisor.on_poll(false, now, String::new()) {
        SupervisorEvent::Saved(artifact) => {
            assert_eq!(artifact.name, "Zoom.exe");
            assert_eq!(artifact.duration_ms, 10_000);
            assert_eq!(artifact.sample_count, 10 * RATE as u64);
            assert_eq!(artifact.data.len(), 44 + 2 * 10 * RATE as usize);
            // the mean of a sample with itself is the sample
            let expected = tone(0, 4);
            for (i, s) in expected.iter().enumerate() {
                let q = ((*s.min(&32768).max(&-32768) as i64 * 32767) / 32768) as i16;
                assert_eq!(&artifact.data[44 + 2 * i..46 + 2 * i], &q.to_le_bytes());
            }
        }
        other => panic!("no artifact: {:?}", other),
    }
    assert!(!supervisor.is_recording());
    assert_eq!(supervisor.last_outcome(), SessionOutcome::Finalized);
    assert_eq!(supervisor.recordings_started(), 1);
}

#[test]
fn a_short_trigger_episode_leaves_no_artifact() {
    let mut supervisor = SessionSupervisor::new(policy(), 2);
    assert_eq!(supervisor.on_poll(true, 1000, "Zoom.exe".to_string()), SupervisorEvent::Started);
    assert_eq!(supervisor.on_poll(false, 2000, String::new()), SupervisorEvent::Discarded);
    assert_eq!(supervisor.last_outcome(), SessionOutcome::Abandoned);
    assert!(!supervisor.is_recording());
}

#[test]
fn silence_ends_a_manual_recording_but_not_a_triggered_one() {
    let quiet: Vec<i32> = vec![20; 160];

    let mut manual = SessionSupervisor::new(policy(), 0);
    let mut capture = DualChannelRecorder::new(RATE).start_recording();
    assert_eq!(manual.start_manual(0, "manual".to_string()), SupervisorEvent::Started);
    let mut stopped_at = None;
    for i in 0..400u64 {
        let now = 10 * (i + 1);
        capture.mic_receiver.push(SampleChunk { samples: quiet.clone(), sequence: i, timestamp_ms: now });
        match manual.pump(&mut capture, now) {
            SupervisorEvent::Nothing => {}
            SupervisorEvent::Discarded => {
                stopped_at = Some(now);
                break;
            }
            other => panic!("unexpected: {:?}", other),
        }
    }
    // silent for longer than two seconds, which is less than the minimum duration
    assert_eq!(stopped_at, Some(2010));
    assert!(!manual.is_recording());
    assert_eq!(manual.last_outcome(), SessionOutcome::Abandoned);

    let mut triggered = SessionSupervisor::new(policy(), 0);
    let mut capture = DualChannelRecorder::new(RATE).start_recording();
    assert_eq!(triggered.on_poll(true, 0, "call".to_string()), SupervisorEvent::Started);
    for i in 0..400u64 {
        let now = 10 * (i + 1);
        capture.mic_receiver.push(SampleChunk { samples: quiet.clone(), sequence: i, timestamp_ms: now });
        assert_eq!(triggered.pump(&mut capture, now), SupervisorEvent::Nothing);
    }
    assert!(triggered.is_recording());
    assert_eq!(triggered.samples_accepted(), 400 * 160);
}

#[test]
fn a_manual_recording_that_falls_silent_is_saved_when_long_enough() {
    let mut supervisor = SessionSupervisor::new(policy(), 0);
    let mut capture = DualChannelRecorder::new(RATE).start_recording();
    assert_eq!(supervisor.start_manual(0, "manual".to_string()), SupervisorEvent::Started);
    let loud: Vec<i32> = vec![8000; 160];
    let quiet: Vec<i32> = vec![0; 160];
    let mut saved = None;
    for i in 0..1000u64 {
        let now = 10 * (i + 1);
        let samples = if now <= 2000 { loud.clone() } else { quiet.clone() };
        capture.mic_receiver.push(SampleChunk { samples, sequence: i, timestamp_ms: now });
        match supervisor.pump(&mut capture, now) {
            SupervisorEvent::Nothing => {}
            SupervisorEvent::Saved(artifact) => {
                saved = Some((now, artifact));
                break;
            }
            other => panic!("unexpected: {:?}", other),
        }
    }
    let (now, artifact) = saved.unwrap();
    assert_eq!(now, 4010);
    assert_eq!(artifact.duration_ms, 4010);
    assert_eq!(artifact.sample_count, 401 * 160);
    assert_eq!(artifact.name, "manual");
}

#[test]
fn a_manual_start_is_rejected_while_a_triggered_recording_runs() {
    let mut supervisor = SessionSupervisor::new(policy(), 2);
    assert_eq!(supervisor.on_poll(true, 0, "call".to_string()), SupervisorEvent::Started);
    assert_eq!(supervisor.start_manual(10, "manual".to_string()), SupervisorEvent::StartRejected);
    assert_eq!(supervisor.stop_manual(20), SupervisorEvent::Nothing);
    assert!(supervisor.is_recording());
    assert_eq!(supervisor.mode(), SessionMode::Triggered);
    assert_eq!(supervisor.recordings_started(), 1);
}

#[test]
fn the_trigger_does_not_touch_a_manual_recording() {
    let mut supervisor = SessionSupervisor::new(policy(), 2);
    assert_eq!(supervisor.start_manual(0, "manual".to_string()), SupervisorEvent::Started);
    assert_eq!(supervisor.start_manual(5, "again".to_string()), SupervisorEvent::Nothing);
    assert_eq!(supervisor.on_poll(true, 10, "call".to_string()), SupervisorEvent::Nothing);
    assert_eq!(supervisor.on_poll(false, 5000, String::new()), SupervisorEvent::Nothing);
    assert!(supervisor.is_recording());
    assert_eq!(supervisor.mode(), SessionMode::Manual);
    match supervisor.stop_manual(6000) {
        SupervisorEvent::Saved(artifact) => {
            assert_eq!(artifact.name, "manual");
            assert_eq!(artifact.duration_ms, 6000);
            assert_eq!(artifact.sample_count, 0);
        }
        other => panic!("no artifact: {:?}", other),
    }
    assert_eq!(supervisor.recordings_started(), 1);
}

#[test]
fn chunks_that_arrive_while_nothing_is_recorded_are_dropped() {
    let mut supervisor = SessionSupervisor::new(policy(), 0);
    let mut capture = DualChannelRecorder::new(RATE).start_recording();
    capture.mic_receiver.push(SampleChunk { samples: vec![1, 2, 3], sequence: 0, timestamp_ms: 0 });
    capture.speaker_receiver.push(SampleChunk { samples: vec![1, 2, 3], sequence: 0, timestamp_ms: 0 });
    assert_eq!(supervisor.pump(&mut capture, 10), SupervisorEvent::Nothing);
    assert_eq!(capture.mic_receiver.try_pop(), None);
    assert_eq!(capture.speaker_receiver.try_pop(), None);
    assert_eq!(supervisor.samples_accepted(), 0);
    assert_eq!(supervisor.stop_manual(20), SupervisorEvent::Nothing);
}

#[test]
fn a_failed_start_leaves_the_supervisor_live() {
    let mut bad = policy();
    bad.sample_rate = 0;
    let mut supervisor = SessionSupervisor::new(bad, 0);
    assert!(matches!(supervisor.on_poll(true, 0, "call".to_string()), SupervisorEvent::StartFailed(_)));
    assert!(!supervisor.is_recording());
    assert_eq!(supervisor.on_poll(false, 5000, String::new()), SupervisorEvent::Nothing);
    assert!(matches!(supervisor.start_manual(6000, "manual".to_string()), SupervisorEvent::StartFailed(_)));
    assert_eq!(supervisor.recordings_started(), 0);
}

#[test]
fn a_turn_on_drained_samples_is_a_turn_on_the_queues() {
    let quiet: Vec<i32> = vec![0; 160];
    let mut supervisor = SessionSupervisor::new(policy(), 0);
    assert_eq!(supervisor.start_manual(0, "manual".to_string()), SupervisorEvent::Started);
    assert_eq!(supervisor.feed(vec![9000; 160], vec![7000; 160], 10), SupervisorEvent::Nothing);
    assert_eq!(supervisor.feed(vec![], vec![], 20), SupervisorEvent::Nothing);
    assert_eq!(supervisor.samples_accepted(), 160);
    assert_eq!(supervisor.feed(quiet.clone(), vec![], 2010), SupervisorEvent::Nothing);
    assert_eq!(supervisor.feed(quiet.clone(), vec![], 2011), SupervisorEvent::Discarded);
    assert!(!supervisor.is_recording());
    assert_eq!(supervisor.feed(quiet, vec![], 2012), SupervisorEvent::Nothing);
}
