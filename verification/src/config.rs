//! Settings of the recorder that follows call applications.

use vstd::prelude::*;
use vstd::string::*;
use crate::recorder::SessionPolicy;
use crate::smart_recorder::AudioFormat;

verus! {

/// How the audio is sampled and encoded.
#[derive(Debug, Clone, Copy, PartialEq, Eq, Structural)]
pub struct AudioConfig {
    /// Samples per second.
    pub sample_rate: u32,
    /// Bit rate of the encoding, in kbit/s.
    pub bitrate: u32,
    pub channels: u16,
    /// Quality of the MP3 encoding, from 0 (best) to 9.
    pub quality: u8,
}

impl Default for AudioConfig {
    /// Stereo at 44.1 kHz, encoded at 128 kbit/s and quality 2.
    fn default() -> (c: AudioConfig)
        ensures
            c == (AudioConfig { sample_rate: 44100, bitrate: 128, channels: 2, quality: 2 }),
    {
        AudioConfig { sample_rate: 44100, bitrate: 128, channels: 2, quality: 2 }
    }
}

/// The names of the call applications that are monitored by default.
pub open spec fn default_monitored_apps() -> Seq<Seq<char>> {
    seq![
        "WeChat.exe"@,
        "QQ.exe"@,
        "Lark.exe"@,
        "Feishu.exe"@,
        "Skype.exe"@,
        "Teams.exe"@,
        "Zoom.exe"@,
        "DingTalk.exe"@,
    ]
}

/// Settings of the recorder. The minimum call duration is in seconds.
#[derive(Debug, Clone, PartialEq, Eq)]
pub struct RecorderConfig {
    pub output_dir: String,
    pub audio: AudioConfig,
    pub monitored_apps: Vec<String>,
    pub auto_record: bool,
    /// Calls shorter than this many seconds are not saved.
    pub min_call_duration: u64,
}

impl RecorderConfig {
    /// The default settings with recordings saved in `output_dir`: the
    /// default audio settings, the default list of call applications,
    /// automatic recording, and calls under five seconds not saved.
    pub fn new(output_dir: String) -> (c: RecorderConfig)
        ensures
            c.output_dir == output_dir,
            c.audio == (AudioConfig { sample_rate: 44100, bitrate: 128, channels: 2, quality: 2 }),
            c.monitored_apps@.map_values(|name: String| name@) == default_monitored_apps(),
            c.auto_record,
            c.min_call_duration == 5,
    {
        let mut monitored_apps: Vec<String> = Vec::new();
        monitored_apps.push(String::from_str("WeChat.exe"));
        monitored_apps.push(String::from_str("QQ.exe"));
        monitored_apps.push(String::from_str("Lark.exe"));
        monitored_apps.push(String::from_str("Feishu.exe"));
        monitored_apps.push(String::from_str("Skype.exe"));
        monitored_apps.push(String::from_str("Teams.exe"));
        monitored_apps.push(String::from_str("Zoom.exe"));
        monitored_apps.push(String::from_str("DingTalk.exe"));
        assert(monitored_apps@.map_values(|name: String| name@) =~= default_monitored_apps());
        RecorderConfig {
            output_dir,
            audio: AudioConfig { sample_rate: 44100, bitrate: 128, channels: 2, quality: 2 },
            monitored_apps,
            auto_record: true,
            min_call_duration: 5,
        }
    }

    /// The minimum call duration in milliseconds, which stops at the
    /// largest `u64`.
    pub open spec fn min_call_ms(&self) -> u64 {
        if self.min_call_duration <= u64::MAX / 1000 {
            (self.min_call_duration * 1000) as u64
        } else {
            u64::MAX
        }
    }

    /// The rules of an MP3 recording under these settings, with the
    /// given silence threshold and the time of silence that is allowed.
    pub fn session_policy(&self, silence_threshold: u32, silence_duration_ms: u64) -> (p: SessionPolicy)
        ensures
            p == (SessionPolicy {
                sample_rate: self.audio.sample_rate,
                save_format: AudioFormat::Mp3,
                bit_rate: self.audio.bitrate,
                quality: self.audio.quality,
                min_recording_ms: self.min_call_ms(),
                silence_threshold: silence_threshold,
                silence_duration_ms: silence_duration_ms,
            }),
    {
        let min_recording_ms: u64 = if self.min_call_duration <= u64::MAX / 1000 {
            self.min_call_duration * 1000
        } else {
            u64::MAX
        };
        SessionPolicy {
            sample_rate: self.audio.sample_rate,
            save_format: AudioFormat::Mp3,
            bit_rate: self.audio.bitrate,
            quality: self.audio.quality,
            min_recording_ms,
            silence_threshold,
            silence_duration_ms,
        }
    }
}

} // verus!
