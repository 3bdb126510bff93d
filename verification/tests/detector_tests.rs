use auto_audio_recorder::mic_detector::{AudioSession, MicrophoneDetector};
use auto_audio_recorder::process_monitor::ProcessMonitor;

fn session(process_id: u32, name: &str, is_capture: bool) -> AudioSession {
    AudioSession {
        process_id,
        process_name: name.to_string(),
        is_capture,
        session_id: format!("session-{}", process_id),
    }
}

#[test]
fn test_blacklist() {
    let mut detector = MicrophoneDetector::new();
    detector.add_to_blacklist("chrome.exe".to_string());
    detector.add_to_blacklist("firefox.exe".to_string());

    assert!(detector.is_blacklisted("chrome.exe"));
    assert!(detector.is_blacklisted("firefox.exe"));

    detector.remove_from_blacklist("chrome.exe");
    assert!(!detector.is_blacklisted("chrome.exe"));
}

#[test]
fn the_blacklist_ignores_case() {
    let mut detector = MicrophoneDetector::new();
    detector.add_to_blacklist("Chrome.EXE".to_string());
    assert!(detector.is_blacklisted("chrome.exe"));
    assert!(detector.is_blacklisted("CHROME.exe"));
    assert!(!detector.is_blacklisted("chrome"));
    detector.remove_from_blacklist("CHROME.EXE");
    assert!(!detector.is_blacklisted("chrome.exe"));
}

#[test]
fn adding_twice_and_removing_once_removes() {
    let mut detector = MicrophoneDetector::new();
    detector.add_to_blacklist("zoom.exe".to_string());
    detector.add_to_blacklist("ZOOM.exe".to_string());
    detector.remove_from_blacklist("zoom.exe");
    assert!(!detector.is_blacklisted("zoom.exe"));
    detector.remove_from_blacklist("zoom.exe");
    assert!(!detector.is_blacklisted("zoom.exe"));
}

#[test]
fn set_blacklist_replaces_the_list() {
    let mut detector = MicrophoneDetector::new();
    detector.add_to_blacklist("old.exe".to_string());
    detector.set_blacklist(vec!["A.exe".to_string(), "b.exe".to_string(), "a.EXE".to_string()]);
    assert!(!detector.is_blacklisted("old.exe"));
    assert!(detector.is_blacklisted("a.exe"));
    assert!(detector.is_blacklisted("B.EXE"));
    detector.set_blacklist(vec![]);
    assert!(!detector.is_blacklisted("a.exe"));
}

#[test]
fn blacklisted_sessions_are_filtered_out_in_order() {
    let mut detector = MicrophoneDetector::new();
    detector.set_blacklist(vec!["chrome.exe".to_string()]);
    let all = vec![
        session(10, "Zoom.exe", true),
        session(11, "Chrome.exe", true),
        session(12, "Teams.exe", true),
        session(13, "CHROME.EXE", false),
    ];
    let active = detector.detect_active_sessions(&all);
    assert_eq!(active, vec![session(10, "Zoom.exe", true), session(12, "Teams.exe", true)]);
    assert_eq!(detector.detect_active_sessions(&vec![]), vec![]);
}

#[test]
fn active_apps_are_the_names_of_capture_sessions() {
    let detector = MicrophoneDetector::new();
    let sessions = vec![
        session(1, "Zoom.exe", true),
        session(2, "Player.exe", false),
        session(3, "Teams.exe", true),
    ];
    assert_eq!(detector.get_active_apps(&sessions), vec!["Zoom.exe".to_string(), "Teams.exe".to_string()]);
    assert_eq!(detector.get_active_apps(&vec![]), Vec::<String>::new());
}

#[test]
fn a_microphone_user_is_a_capture_session_of_a_process() {
    let detector = MicrophoneDetector::new();
    assert!(!detector.has_new_microphone_user(&vec![]));
    assert!(!detector.has_new_microphone_user(&vec![session(5, "Player.exe", false)]));
    assert!(!detector.has_new_microphone_user(&vec![session(0, "System", true)]));
    assert!(detector.has_new_microphone_user(&vec![session(0, "System", true), session(7, "Zoom.exe", true)]));
}

#[test]
fn a_copy_of_a_session_equals_it() {
    let s = session(42, "Zoom.exe", true);
    assert_eq!(s.duplicate(), s);
}

#[test]
fn a_call_is_active_while_a_monitored_app_runs() {
    let monitor = ProcessMonitor::new(vec!["WeChat.exe".to_string(), "Zoom.exe".to_string()]);
    assert!(!monitor.is_call_active(&vec![]));
    assert!(!monitor.is_call_active(&vec!["explorer.exe".to_string(), "notepad.exe".to_string()]));
    assert!(monitor.is_call_active(&vec!["explorer.exe".to_string(), "zoom.exe".to_string()]));
    assert!(monitor.is_call_active(&vec!["WECHAT.EXE".to_string()]));
}

#[test]
fn a_monitor_of_nothing_is_never_active() {
    let monitor = ProcessMonitor::new(vec![]);
    assert!(!monitor.is_call_active(&vec!["zoom.exe".to_string()]));
}
