use auto_audio_recorder::config;
use auto_audio_recorder::mic_detector::AudioSession;
use auto_audio_recorder::recorder::{recording_file_name, SessionPolicy};
use auto_audio_recorder::smart_recorder::{
    manual_recording_name, AudioFormat, MonitorAction, OutputPath, RecorderConfig, SmartRecorder,
};

fn session(process_id: u32, name: &str, is_capture: bool) -> AudioSession {
    AudioSession { process_id, process_name: name.to_string(), is_capture, session_id: String::new() }
}

#[test]
fn the_default_settings() {
    let c = RecorderConfig::default();
    assert_eq!(c.output_dir, "recordings");
    assert_eq!(c.sample_rate, 48000);
    assert_eq!(c.bit_rate, 128);
    assert_eq!(c.quality, 2);
    assert_eq!(c.mic_gain, 1000);
    assert_eq!(c.speaker_gain, 1000);
    assert_eq!(c.blacklist, vec!["chrome.exe", "firefox.exe", "msedge.exe"]);
    assert!(c.auto_create_folders);
    assert_eq!(c.save_format, AudioFormat::Mp3);
    assert_eq!(c.min_recording_duration, 3000);
}

#[test]
fn the_default_settings_of_the_call_recorder() {
    let audio = config::AudioConfig::default();
    assert_eq!((audio.sample_rate, audio.bitrate, audio.channels, audio.quality), (44100, 128, 2, 2));
    let c = config::RecorderConfig::new("out".to_string());
    assert_eq!(c.output_dir, "out");
    assert_eq!(c.audio, audio);
    assert_eq!(
        c.monitored_apps,
        vec![
            "WeChat.exe",
            "QQ.exe",
            "Lark.exe",
            "Feishu.exe",
            "Skype.exe",
            "Teams.exe",
            "Zoom.exe",
            "DingTalk.exe"
        ]
    );
    assert!(c.auto_record);
    assert_eq!(c.min_call_duration, 5);
}

#[test]
fn settings_give_the_rules_of_a_recording() {
    let c = RecorderConfig::default();
    assert_eq!(
        c.session_policy(300, 5000),
        SessionPolicy {
            sample_rate: 48000,
            save_format: AudioFormat::Mp3,
            bit_rate: 128,
            quality: 2,
            min_recording_ms: 3000,
            silence_threshold: 300,
            silence_duration_ms: 5000,
        }
    );
    let mut call = config::RecorderConfig::new("out".to_string());
    assert_eq!(call.session_policy(1, 2).min_recording_ms, 5000);
    assert_eq!(call.session_policy(1, 2).sample_rate, 44100);
    call.min_call_duration = u64::MAX;
    assert_eq!(call.session_policy(1, 2).min_recording_ms, u64::MAX);
    call.min_call_duration = u64::MAX / 1000;
    assert_eq!(call.session_policy(1, 2).min_recording_ms, u64::MAX / 1000 * 1000);
}

#[test]
fn a_recording_starts_with_the_first_app_and_stops_with_the_last() {
    let mut recorder = SmartRecorder::new(RecorderConfig::default());
    assert!(!recorder.is_recording());
    assert_eq!(recorder.current_app(), None);

    assert_eq!(recorder.poll(&vec![]), MonitorAction::Nothing);
    let sessions = vec![session(1, "Chrome.exe", true), session(2, "Zoom.exe", true), session(3, "Teams.exe", true)];
    assert_eq!(recorder.poll(&sessions), MonitorAction::StartRecording("Zoom.exe".to_string()));
    assert!(recorder.is_recording());
    assert_eq!(recorder.current_app(), Some("Zoom.exe".to_string()));

    // while it records, other apps change nothing
    assert_eq!(recorder.poll(&vec![session(3, "Teams.exe", true)]), MonitorAction::Nothing);
    assert_eq!(recorder.current_app(), Some("Zoom.exe".to_string()));

    // only blacklisted apps and playback sessions are left
    let rest = vec![session(1, "chrome.exe", true), session(4, "Player.exe", false)];
    assert_eq!(recorder.poll(&rest), MonitorAction::StopRecording);
    assert!(!recorder.is_recording());
    assert_eq!(recorder.current_app(), None);
    assert_eq!(recorder.poll(&rest), MonitorAction::Nothing);
}

#[test]
fn new_settings_bring_a_new_blacklist() {
    let mut recorder = SmartRecorder::new(RecorderConfig::default());
    let sessions = vec![session(1, "firefox.exe", true)];
    assert_eq!(recorder.poll(&sessions), MonitorAction::Nothing);
    let mut config = RecorderConfig::default();
    config.blacklist = vec!["zoom.exe".to_string()];
    recorder.update_config(config);
    assert_eq!(recorder.poll(&sessions), MonitorAction::StartRecording("firefox.exe".to_string()));
    assert_eq!(recorder.poll(&vec![session(2, "ZOOM.EXE", true)]), MonitorAction::StopRecording);
}

#[test]
fn the_session_flags_can_be_set_by_hand() {
    let mut recorder = SmartRecorder::new(RecorderConfig::default());
    recorder.start_recording_session(&"Teams.exe".to_string());
    assert!(recorder.is_recording());
    assert_eq!(recorder.current_app(), Some("Teams.exe".to_string()));
    recorder.stop_recording_session();
    assert!(!recorder.is_recording());
    assert_eq!(recorder.current_app(), None);
}

#[test]
fn a_recording_is_named_after_the_app_and_the_time() {
    let mut config = RecorderConfig::default();
    assert_eq!(
        SmartRecorder::generate_output_path(&config, "Zoom.exe", "20240131_235959"),
        OutputPath { folder: Some("Zoom".to_string()), file_name: "Zoom_20240131_235959.mp3".to_string() }
    );
    config.save_format = AudioFormat::Wav;
    config.auto_create_folders = false;
    assert_eq!(
        SmartRecorder::generate_output_path(&config, "TEAMS.EXE", "20240131_235959"),
        OutputPath { folder: None, file_name: "TEAMS_20240131_235959.wav".to_string() }
    );
}

#[test]
fn every_exe_at_the_end_of_a_name_is_removed() {
    let config = RecorderConfig::default();
    let name = |app: &str| SmartRecorder::generate_output_path(&config, app, "t").file_name;
    assert_eq!(name("app.exe.exe"), "app_t.mp3");
    assert_eq!(name("app.EXE.EXE"), "app_t.mp3");
    // the small spelling is removed first, so one that hides behind the capital spelling stays
    assert_eq!(name("app.exe.EXE"), "app.exe_t.mp3");
    assert_eq!(name("app.EXE.exe"), "app_t.mp3");
    assert_eq!(name("app.Exe"), "app.Exe_t.mp3");
    assert_eq!(name("exe"), "exe_t.mp3");
    assert_eq!(name(".exe"), "_t.mp3");
    assert_eq!(name(""), "_t.mp3");
    assert_eq!(name("my.exe.app"), "my.exe.app_t.mp3");
}

#[test]
fn recordings_started_by_hand_and_saved_calls_are_named_after_the_time() {
    assert_eq!(manual_recording_name("20240131_235959", AudioFormat::Mp3), "manual_20240131_235959.mp3");
    assert_eq!(manual_recording_name("", AudioFormat::Wav), "manual_.wav");
    assert_eq!(recording_file_name("20240131_235959"), "recording_20240131_235959.mp3");
}
