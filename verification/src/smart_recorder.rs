//! The recorder that watches who uses the microphone: its settings, and
//! the decisions it takes at each poll.

use vstd::prelude::*;
use vstd::string::*;
use crate::mic_detector::{allowed, capture_names, AudioSession, MicrophoneDetector};
use crate::recorder::SessionPolicy;
use crate::sample::UNITY_GAIN;
use crate::text::{
    clone_texts, listed_names, lowercase_set, parse_list, trim_end_matches, trimmed_end, views_of,
};

verus! {

/// The format a recording is saved in.
#[derive(Debug, Clone, Copy, PartialEq, Eq, Structural)]
pub enum AudioFormat {
    Mp3,
    Wav,
}

impl AudioFormat {
    /// The format that goes by a name: MP3 for `mp3`, and WAV for any
    /// other name.
    pub fn from_name(name: &str) -> (format: AudioFormat)
        ensures
            format == if name@ == "mp3"@ {
                AudioFormat::Mp3
            } else {
                AudioFormat::Wav
            },
    {
        let given = name.to_owned();
        let mp3 = String::from_str("mp3");
        if given == mp3 {
            AudioFormat::Mp3
        } else {
            AudioFormat::Wav
        }
    }
}

/// Settings of the recorder. Gains are in thousandths, the minimum
/// duration in milliseconds.
#[derive(Debug, Clone, PartialEq, Eq)]
pub struct RecorderConfig {
    pub output_dir: String,
    pub sample_rate: u32,
    pub bit_rate: u32,
    pub quality: u8,
    pub mic_gain: u32,
    pub speaker_gain: u32,
    pub blacklist: Vec<String>,
    pub auto_create_folders: bool,
    pub save_format: AudioFormat,
    pub min_recording_duration: u64,
}

impl Default for RecorderConfig {
    /// MP3 at 48 kHz and 128 kbit/s with unity gains, saved under
    /// `recordings` in a folder per application, three browsers
    /// blacklisted, and recordings under three seconds discarded.
    fn default() -> (c: RecorderConfig)
        ensures
            c.output_dir@ == "recordings"@,
            c.sample_rate == 48000,
            c.bit_rate == 128,
            c.quality == 2,
            c.mic_gain == UNITY_GAIN,
            c.speaker_gain == UNITY_GAIN,
            c.blacklist@.len() == 3,
            c.blacklist@[0]@ == "chrome.exe"@,
            c.blacklist@[1]@ == "firefox.exe"@,
            c.blacklist@[2]@ == "msedge.exe"@,
            c.auto_create_folders,
            c.save_format == AudioFormat::Mp3,
            c.min_recording_duration == 3000,
    {
        let mut blacklist: Vec<String> = Vec::new();
        blacklist.push(String::from_str("chrome.exe"));
        blacklist.push(String::from_str("firefox.exe"));
        blacklist.push(String::from_str("msedge.exe"));
        RecorderConfig {
            output_dir: String::from_str("recordings"),
            sample_rate: 48000,
            bit_rate: 128,
            quality: 2,
            mic_gain: UNITY_GAIN,
            speaker_gain: UNITY_GAIN,
            blacklist,
            auto_create_folders: true,
            save_format: AudioFormat::Mp3,
            min_recording_duration: 3000,
        }
    }
}

impl RecorderConfig {
    /// The settings for what a user has entered: the blacklist as a list
    /// written with commas, the format by its name, and the minimum
    /// duration in seconds, which is kept in milliseconds and stops at
    /// the largest `u64`.
    pub fn from_settings(
        output_path: String,
        sample_rate: u32,
        bit_rate: u32,
        quality: u8,
        mic_gain: u32,
        speaker_gain: u32,
        blacklist: &str,
        auto_create_folders: bool,
        audio_format: &str,
        min_duration_seconds: u64,
    ) -> (c: RecorderConfig)
        ensures
            c.output_dir == output_path,
            c.sample_rate == sample_rate,
            c.bit_rate == bit_rate,
            c.quality == quality,
            c.mic_gain == mic_gain,
            c.speaker_gain == speaker_gain,
            views_of(c.blacklist@) == listed_names(blacklist@),
            c.auto_create_folders == auto_create_folders,
            c.save_format == if audio_format@ == "mp3"@ {
                AudioFormat::Mp3
            } else {
                AudioFormat::Wav
            },
            c.min_recording_duration == if min_duration_seconds <= u64::MAX / 1000 {
                (min_duration_seconds * 1000) as u64
            } else {
                u64::MAX
            },
    {
        RecorderConfig {
            output_dir: output_path,
            sample_rate,
            bit_rate,
            quality,
            mic_gain,
            speaker_gain,
            blacklist: parse_list(blacklist),
            auto_create_folders,
            save_format: AudioFormat::from_name(audio_format),
            min_recording_duration: if min_duration_seconds <= u64::MAX / 1000 {
                min_duration_seconds * 1000
            } else {
                u64::MAX
            },
        }
    }

    /// The rules of a recording under these settings, with the given
    /// silence threshold and the time of silence that is allowed.
    pub fn session_policy(&self, silence_threshold: u32, silence_duration_ms: u64) -> (p: SessionPolicy)
        ensures
            p == (SessionPolicy {
                sample_rate: self.sample_rate,
                save_format: self.save_format,
                bit_rate: self.bit_rate,
                quality: self.quality,
                min_recording_ms: self.min_recording_duration,
                silence_threshold: silence_threshold,
                silence_duration_ms: silence_duration_ms,
            }),
    {
        SessionPolicy {
            sample_rate: self.sample_rate,
            save_format: self.save_format,
            bit_rate: self.bit_rate,
            quality: self.quality,
            min_recording_ms: self.min_recording_duration,
            silence_threshold,
            silence_duration_ms,
        }
    }
}

/// Where a recording is saved: the folder under the output directory, if
/// it gets one of its own, and the name of the file.
#[derive(Debug, Clone, PartialEq, Eq)]
pub struct OutputPath {
    pub folder: Option<String>,
    pub file_name: String,
}

/// The name of an application without the `.exe` it ends with, in
/// either spelling.
pub open spec fn app_basename(app_name: Seq<char>) -> Seq<char> {
    trimmed_end(trimmed_end(app_name, ".exe"@), ".EXE"@)
}

/// The extension that file names of a format end with.
pub open spec fn extension(format: AudioFormat) -> Seq<char> {
    match format {
        AudioFormat::Mp3 => ".mp3"@,
        AudioFormat::Wav => ".wav"@,
    }
}

/// The name of the file of a recording: the application's name, the time
/// stamp and the extension of the format.
pub open spec fn recording_name(app_name: Seq<char>, timestamp: Seq<char>, format: AudioFormat) -> Seq<
    char,
> {
    app_basename(app_name) + "_"@ + timestamp + extension(format)
}

/// The name of the file of a recording that was started by hand.
pub open spec fn manual_name(timestamp: Seq<char>, format: AudioFormat) -> Seq<char> {
    "manual_"@ + timestamp + extension(format)
}

/// Names the file of a recording that was started by hand after the
/// time stamp of the moment and the format.
pub fn manual_recording_name(timestamp: &str, format: AudioFormat) -> (name: String)
    ensures
        name@ == manual_name(timestamp@, format),
{
    let mut name = String::from_str("manual_");
    name.append(timestamp);
    match format {
        AudioFormat::Mp3 => {
            name.append(".mp3");
        },
        AudioFormat::Wav => {
            name.append(".wav");
        },
    }
    name
}

/// What `SmartRecorder::poll` asks its caller to do.
#[derive(Debug, Clone, PartialEq, Eq)]
pub enum MonitorAction {
    Nothing,
    /// Start to record the named application.
    StartRecording(String),
    StopRecording,
}

/// Records while an application that is not blacklisted uses the
/// microphone.
pub struct SmartRecorder {
    config: RecorderConfig,
    detector: MicrophoneDetector,
    is_recording: bool,
    current_session: Option<String>,
}

impl SmartRecorder {
    /// The invariant of a recorder: it knows the application it records
    /// exactly while it records.
    pub closed spec fn wf(&self) -> bool {
        self.detector.wf() && (self.is_recording <==> self.current_session is Some)
    }

    /// A well-formed recorder records exactly while it knows the
    /// application it records.
    pub proof fn lemma_states(&self)
        requires
            self.wf(),
        ensures
            self.recording() <==> self.current() is Some,
    {
    }

    pub closed spec fn settings(&self) -> RecorderConfig {
        self.config
    }

    /// The lowercase names of the applications that do not count.
    pub closed spec fn blacklist(&self) -> Set<Seq<char>> {
        self.detector.blacklist()
    }

    pub closed spec fn recording(&self) -> bool {
        self.is_recording
    }

    /// The name of the application that is recorded.
    pub closed spec fn current(&self) -> Option<Seq<char>> {
        match self.current_session {
            Some(name) => Some(name@),
            None => None,
        }
    }

    /// A recorder that does not record, with the blacklist of its
    /// settings.
    pub fn new(config: RecorderConfig) -> (r: SmartRecorder)
        ensures
            r.wf(),
            r.settings() == config,
            r.blacklist() == lowercase_set(config.blacklist@),
            !r.recording(),
            r.current() is None,
    {
        let mut detector = MicrophoneDetector::new();
        detector.set_blacklist(clone_texts(&config.blacklist));
        SmartRecorder { config, detector, is_recording: false, current_session: None }
    }

    /// Replaces the settings, and the blacklist with them.
    pub fn update_config(&mut self, config: RecorderConfig)
        requires
            old(self).wf(),
        ensures
            final(self).wf(),
            final(self).settings() == config,
            final(self).blacklist() == lowercase_set(config.blacklist@),
            final(self).recording() == old(self).recording(),
            final(self).current() == old(self).current(),
    {
        self.detector.set_blacklist(clone_texts(&config.blacklist));
        self.config = config;
    }

    /// Takes the sessions that a poll found and decides what to do.
    ///
    /// The applications that count are those of the recording sessions
    /// that are not blacklisted. When there is one and nothing is being
    /// recorded, the first of them is to be recorded. When there is
    /// none and something is being recorded, the recording is to stop.
    /// Otherwise nothing is to be done.
    pub fn poll(&mut self, sessions: &Vec<AudioSession>) -> (action: MonitorAction)
        requires
            old(self).wf(),
        ensures
            final(self).wf(),
            final(self).settings() == old(self).settings(),
            final(self).blacklist() == old(self).blacklist(),
            ({
                let apps = capture_names(allowed(sessions@, old(self).blacklist()));
                if apps.len() > 0 && !old(self).recording() {
                    &&& action matches MonitorAction::StartRecording(app) && app@ == apps[0]
                    &&& final(self).recording()
                    &&& final(self).current() == Some(apps[0])
                } else if apps.len() == 0 && old(self).recording() {
                    &&& action == MonitorAction::StopRecording
                    &&& !final(self).recording()
                    &&& final(self).current() is None
                } else {
                    &&& action == MonitorAction::Nothing
                    &&& final(self).recording() == old(self).recording()
                    &&& final(self).current() == old(self).current()
                }
            }),
    {
        let active = self.detector.detect_active_sessions(sessions);
        let apps = self.detector.get_active_apps(&active);
        if apps.len() > 0 && !self.is_recording {
            let app = apps[0].clone();
            proof {
                let names = capture_names(allowed(sessions@, old(self).blacklist()));
                assert(apps@.map_values(|name: String| name@)[0] == names[0]);
            }
            self.start_recording_session(&app);
            MonitorAction::StartRecording(app)
        } else if apps.len() == 0 && self.is_recording {
            self.stop_recording_session();
            MonitorAction::StopRecording
        } else {
            MonitorAction::Nothing
        }
    }

    /// Notes that the named application is being recorded.
    pub fn start_recording_session(&mut self, app_name: &String)
        requires
            old(self).wf(),
        ensures
            final(self).wf(),
            final(self).settings() == old(self).settings(),
            final(self).blacklist() == old(self).blacklist(),
            final(self).recording(),
            final(self).current() == Some(app_name@),
    {
        self.is_recording = true;
        self.current_session = Some(app_name.clone());
    }

    /// Notes that nothing is being recorded any more.
    pub fn stop_recording_session(&mut self)
        requires
            old(self).wf(),
        ensures
            final(self).wf(),
            final(self).settings() == old(self).settings(),
            final(self).blacklist() == old(self).blacklist(),
            !final(self).recording(),
            final(self).current() is None,
    {
        self.is_recording = false;
        self.current_session = None;
    }

    pub fn is_recording(&self) -> (b: bool)
        ensures
            b == self.recording(),
    {
        self.is_recording
    }

    /// The name of the application that is recorded, if any.
    pub fn current_app(&self) -> (app: Option<String>)
        ensures
            match app {
                Some(name) => self.current() == Some(name@),
                None => self.current() is None,
            },
    {
        match &self.current_session {
            Some(name) => Some(name.clone()),
            None => None,
        }
    }

    /// Where the recording of an application is saved, given the time
    /// stamp of the moment. The file is named after the application, the
    /// time stamp and the format; with a folder per application the
    /// folder is named after the application too.
    pub fn generate_output_path(config: &RecorderConfig, app_name: &str, timestamp: &str) -> (path: OutputPath)
        ensures
            path.file_name@ == recording_name(app_name@, timestamp@, config.save_format),
            match path.folder {
                Some(folder) => config.auto_create_folders && folder@ == app_basename(app_name@),
                None => !config.auto_create_folders,
            },
    {
        let without_lower = trim_end_matches(app_name, ".exe");
        let basename = trim_end_matches(without_lower, ".EXE");
        let mut file_name = String::from_str(basename);
        file_name.append("_");
        file_name.append(timestamp);
        match config.save_format {
            AudioFormat::Mp3 => {
                file_name.append(".mp3");
            },
            AudioFormat::Wav => {
                file_name.append(".wav");
            },
        }
        let folder = if config.auto_create_folders {
            Some(String::from_str(basename))
        } else {
            None
        };
        OutputPath { folder, file_name }
    }
}

} // verus!
