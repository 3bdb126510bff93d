//! The life of one recording: started, fed with mixed chunks, watched
//! for silence, and stopped into an artifact or discarded.

use vstd::prelude::*;
use vstd::string::*;
use crate::channel_mixer::MixedChunk;
use crate::codec::{wav_image, SinkError, MAX_CODEC_INPUT, MAX_WAV_SAMPLES};
use crate::config::AudioConfig;
use crate::encode_sink::EncodeSink;
use crate::encoder::{longer_len, Mp3Encoder};
use crate::level_meter::{rms_level, LevelMeter};
use crate::mp3_encoder::WORST_QUALITY;
use crate::sample::quantized_seq;
use crate::smart_recorder::AudioFormat;

verus! {

/// Whether audio is being persisted. `Stopped` is passed through while a
/// recording is closed and is never seen between two calls.
#[derive(Debug, Clone, Copy, PartialEq, Eq, Structural)]
pub enum RecordingState {
    Idle,
    Recording,
    Stopped,
}

/// Who started a recording: the trigger, or a user by hand.
#[derive(Debug, Clone, Copy, PartialEq, Eq, Structural)]
pub enum SessionMode {
    Triggered,
    Manual,
}

/// How the last recording ended.
#[derive(Debug, Clone, Copy, PartialEq, Eq, Structural)]
pub enum SessionOutcome {
    /// No recording has ended yet.
    Nothing,
    /// The sink was finalized into an artifact.
    Finalized,
    /// The recording was shorter than the minimum and its sink was
    /// abandoned.
    Abandoned,
    /// The sink failed and the recording was given up.
    Failed,
}

/// What became of a chunk handed to the recorder.
#[derive(Debug, Clone, Copy, PartialEq, Eq, Structural)]
pub enum AcceptOutcome {
    /// No recording is running; the chunk was dropped.
    Ignored,
    /// The chunk was encoded.
    Accepted,
    /// The chunk was encoded, and a manual recording has been silent for
    /// longer than the policy allows: the caller should stop it.
    StopRecommended,
    /// The sink failed on the chunk and the recording was given up.
    Failed(SinkError),
}

/// The rules of a recording. Times are in milliseconds, the threshold is
/// a level between 0 and full scale.
#[derive(Debug, Clone, Copy, PartialEq, Eq, Structural)]
pub struct SessionPolicy {
    pub sample_rate: u32,
    pub save_format: AudioFormat,
    pub bit_rate: u32,
    pub quality: u8,
    pub min_recording_ms: u64,
    pub silence_threshold: u32,
    pub silence_duration_ms: u64,
}

/// The descriptor of a finished recording, with the bytes of its file.
#[derive(Debug, Clone, PartialEq, Eq)]
pub struct Artifact {
    pub name: String,
    pub duration_ms: u64,
    pub sample_count: u64,
    pub data: Vec<u8>,
}

/// What a recorder holds, as plain values.
pub ghost struct RecorderView {
    pub policy: SessionPolicy,
    pub state: RecordingState,
    pub mode: SessionMode,
    pub label: Seq<char>,
    pub started_at_ms: u64,
    pub last_loud_ms: u64,
    pub samples_accepted: nat,
    pub recorded: Seq<i32>,
    pub outcome: SessionOutcome,
    pub sinks_opened: nat,
}

/// A recorder and the outcome of a chunk.
pub ghost struct AcceptResult {
    pub state: RecorderView,
    pub outcome: AcceptOutcome,
}

/// The time from `earlier` to `later`, and 0 if the clock went back.
pub open spec fn elapsed_ms(earlier: u64, later: u64) -> nat {
    if later >= earlier {
        (later - earlier) as nat
    } else {
        0
    }
}

/// A count one higher, which stops at the largest `u64`.
pub open spec fn counted(n: nat) -> nat {
    if n < u64::MAX {
        n + 1
    } else {
        n
    }
}

/// The recorder after a call of `start_recording`, where `opened` says
/// whether a sink could be opened. A running recording is left alone;
/// without a sink the recorder stays idle; with one the counters are
/// reset and the silence watch begins at `now_ms`.
pub open spec fn start_model(
    pre: RecorderView,
    mode: SessionMode,
    now_ms: u64,
    label: Seq<char>,
    opened: bool,
) -> RecorderView {
    if pre.state == RecordingState::Recording || !opened {
        pre
    } else {
        RecorderView {
            policy: pre.policy,
            state: RecordingState::Recording,
            mode: mode,
            label: label,
            started_at_ms: now_ms,
            last_loud_ms: now_ms,
            samples_accepted: 0,
            recorded: Seq::empty(),
            outcome: pre.outcome,
            sinks_opened: counted(pre.sinks_opened),
        }
    }
}

/// The recorder after a recording was given up or closed with
/// `outcome`: it is idle, and what it had recorded went with the sink.
pub open spec fn closed_with(pre: RecorderView, outcome: SessionOutcome) -> RecorderView {
    RecorderView {
        policy: pre.policy,
        state: RecordingState::Idle,
        mode: pre.mode,
        label: pre.label,
        started_at_ms: pre.started_at_ms,
        last_loud_ms: pre.last_loud_ms,
        samples_accepted: pre.samples_accepted,
        recorded: Seq::empty(),
        outcome: outcome,
        sinks_opened: pre.sinks_opened,
    }
}

/// Whether a sink can be opened under a policy, as far as this library
/// decides it: a WAV file cannot hold every sample rate.
pub open spec fn sink_possible(policy: SessionPolicy) -> bool {
    EncodeSink::rate_accepted(policy.save_format, policy.sample_rate)
}

/// Whether a sink is sure to open under a policy: a WAV sink at a rate
/// it can hold is, and for an MP3 sink the codec decides.
pub open spec fn sink_certain(policy: SessionPolicy) -> bool {
    policy.save_format == AudioFormat::Wav && sink_possible(policy)
}

/// Whether a running recording has room for `len` samples more: a WAV
/// file holds a limited number of samples, and the codec takes an MP3
/// recording in chunks of limited length.
pub open spec fn fits(pre: RecorderView, len: nat) -> bool {
    match pre.policy.save_format {
        AudioFormat::Mp3 => len <= MAX_CODEC_INPUT && pre.samples_accepted + len <= u64::MAX,
        AudioFormat::Wav => pre.samples_accepted + len <= MAX_WAV_SAMPLES,
    }
}

/// Whether a chunk counts as loud under a policy.
pub open spec fn is_loud(policy: SessionPolicy, samples: Seq<i32>) -> bool {
    rms_level(samples) >= policy.silence_threshold
}

/// The recorder after a call of `accept` and what the call returns,
/// where `failure` is the error of the sink, if it failed.
///
/// Without a running recording the chunk is ignored. A failure of the
/// sink ends the recording. Otherwise the chunk is counted, a loud chunk
/// moves the silence watch to `now_ms`, and a manual recording that has
/// been silent for longer than the policy allows recommends a stop. A
/// triggered recording never does: it ends with its trigger.
pub open spec fn accept_model(pre: RecorderView, samples: Seq<i32>, now_ms: u64, failure: Option<SinkError>) -> AcceptResult {
    if pre.state != RecordingState::Recording {
        AcceptResult { state: pre, outcome: AcceptOutcome::Ignored }
    } else if failure is Some {
        AcceptResult {
            state: closed_with(pre, SessionOutcome::Failed),
            outcome: AcceptOutcome::Failed(failure.unwrap()),
        }
    } else {
        let last_loud = if is_loud(pre.policy, samples) {
            now_ms
        } else {
            pre.last_loud_ms
        };
        AcceptResult {
            state: RecorderView {
                policy: pre.policy,
                state: RecordingState::Recording,
                mode: pre.mode,
                label: pre.label,
                started_at_ms: pre.started_at_ms,
                last_loud_ms: last_loud,
                samples_accepted: pre.samples_accepted + samples.len(),
                recorded: pre.recorded + samples,
                outcome: pre.outcome,
                sinks_opened: pre.sinks_opened,
            },
            outcome: if pre.mode == SessionMode::Manual && elapsed_ms(last_loud, now_ms)
                > pre.policy.silence_duration_ms {
                AcceptOutcome::StopRecommended
            } else {
                AcceptOutcome::Accepted
            },
        }
    }
}

/// Whether a recording that is stopped at `now_ms` is too short to
/// keep.
pub open spec fn too_short(pre: RecorderView, now_ms: u64) -> bool {
    elapsed_ms(pre.started_at_ms, now_ms) < pre.policy.min_recording_ms
}

/// Whether an artifact is that of the recording `pre` stopped at
/// `now_ms`: it carries the recording's label, the time the recording
/// ran and the number of samples it took, and for a WAV recording its
/// data is the file of the quantized samples.
pub open spec fn describes(artifact: Artifact, pre: RecorderView, now_ms: u64) -> bool {
    &&& artifact.name@ == pre.label
    &&& artifact.duration_ms as nat == elapsed_ms(pre.started_at_ms, now_ms)
    &&& artifact.sample_count as nat == pre.samples_accepted
    &&& pre.policy.save_format == AudioFormat::Wav ==> artifact.data@ == wav_image(
        pre.policy.sample_rate,
        1,
        16,
        quantized_seq(pre.recorded),
    )
}

/// The recorder after a call of `stop_recording`, where `finalized` says
/// whether the sink could be finalized. An idle recorder is left alone;
/// a running recording ends in every case.
pub open spec fn stop_model(pre: RecorderView, now_ms: u64, finalized: bool) -> RecorderView {
    if pre.state != RecordingState::Recording {
        pre
    } else if too_short(pre, now_ms) {
        closed_with(pre, SessionOutcome::Abandoned)
    } else if finalized {
        closed_with(pre, SessionOutcome::Finalized)
    } else {
        closed_with(pre, SessionOutcome::Failed)
    }
}

/// Owns a recording from start to stop. At most one recording runs at a
/// time, and it owns the only sink.
pub struct Recorder {
    policy: SessionPolicy,
    state: RecordingState,
    mode: SessionMode,
    label: String,
    sink: Option<EncodeSink>,
    started_at_ms: u64,
    last_loud_ms: u64,
    samples_accepted: u64,
    outcome: SessionOutcome,
    sinks_opened: u64,
}

impl View for Recorder {
    type V = RecorderView;

    closed spec fn view(&self) -> RecorderView {
        RecorderView {
            policy: self.policy,
            state: self.state,
            mode: self.mode,
            label: self.label@,
            started_at_ms: self.started_at_ms,
            last_loud_ms: self.last_loud_ms,
            samples_accepted: self.samples_accepted as nat,
            recorded: match self.sink {
                Some(sink) => sink.held(),
                None => Seq::empty(),
            },
            outcome: self.outcome,
            sinks_opened: self.sinks_opened as nat,
        }
    }
}

impl Recorder {
    /// The invariant of a recorder: it is idle without a sink or
    /// recording with one, and the sink is of the policy's format and
    /// rate and has taken the samples the recorder counts.
    pub closed spec fn wf(&self) -> bool {
        match self.sink {
            Some(sink) => self.state == RecordingState::Recording && sink.wf() && sink.format()
                == self.policy.save_format && sink.sample_rate() == self.policy.sample_rate
                && sink.sample_count() == self.samples_accepted,
            None => self.state == RecordingState::Idle,
        }
    }

    /// A well-formed recorder is idle or recording. What an idle one has
    /// recorded is empty, and a running one counts what it has
    /// recorded.
    pub proof fn lemma_states(&self)
        requires
            self.wf(),
        ensures
            self@.state == RecordingState::Idle || self@.state == RecordingState::Recording,
            self@.state == RecordingState::Idle ==> self@.recorded == Seq::<i32>::empty(),
            self@.state == RecordingState::Recording ==> self@.recorded.len() == self@.samples_accepted,
    {
        match self.sink {
            Some(sink) => {
                sink.lemma_held_len();
            },
            None => {},
        }
    }

    /// An idle recorder that has not recorded yet.
    pub fn new(policy: SessionPolicy) -> (r: Recorder)
        ensures
            r.wf(),
            r@ == (RecorderView {
                policy: policy,
                state: RecordingState::Idle,
                mode: SessionMode::Triggered,
                label: Seq::empty(),
                started_at_ms: 0,
                last_loud_ms: 0,
                samples_accepted: 0,
                recorded: Seq::empty(),
                outcome: SessionOutcome::Nothing,
                sinks_opened: 0,
            }),
    {
        Recorder {
            policy,
            state: RecordingState::Idle,
            mode: SessionMode::Triggered,
            label: String::new(),
            sink: None,
            started_at_ms: 0,
            last_loud_ms: 0,
            samples_accepted: 0,
            outcome: SessionOutcome::Nothing,
            sinks_opened: 0,
        }
    }

    pub fn get_state(&self) -> (s: RecordingState)
        ensures
            s == self@.state,
    {
        self.state
    }

    /// Whether a recording is running.
    pub fn is_recording(&self) -> (b: bool)
        ensures
            b == (self@.state == RecordingState::Recording),
    {
        match self.state {
            RecordingState::Recording => true,
            _ => false,
        }
    }

    /// Who started the running recording, or the last one.
    pub fn mode(&self) -> (m: SessionMode)
        ensures
            m == self@.mode,
    {
        self.mode
    }

    /// How the last recording ended.
    pub fn last_outcome(&self) -> (o: SessionOutcome)
        ensures
            o == self@.outcome,
    {
        self.outcome
    }

    /// The number of sinks opened so far, which is the number of
    /// recordings started.
    pub fn sinks_opened(&self) -> (n: u64)
        ensures
            n as nat == self@.sinks_opened,
    {
        self.sinks_opened
    }

    /// The number of samples the running recording has taken, or the
    /// last one took.
    pub fn samples_accepted(&self) -> (n: u64)
        ensures
            n as nat == self@.samples_accepted,
    {
        self.samples_accepted
    }

    /// The length of what was recorded, in milliseconds: the number of
    /// samples taken over the sample rate, rounded down, and 0 at a
    /// sample rate of 0.
    pub fn accumulated_ms(&self) -> (ms: u64)
        ensures
            ms as nat == if self@.policy.sample_rate == 0 {
                0
            } else {
                let whole = self@.samples_accepted * 1000 / (self@.policy.sample_rate as nat);
                if whole > u64::MAX {
                    u64::MAX as nat
                } else {
                    whole
                }
            },
    {
        if self.policy.sample_rate == 0 {
            return 0;
        }
        let scaled: u128 = (self.samples_accepted as u128) * 1000;
        let whole: u128 = scaled / (self.policy.sample_rate as u128);
        if whole > u64::MAX as u128 {
            u64::MAX
        } else {
            whole as u64
        }
    }

    /// Starts a recording under a label, which names its artifact. With
    /// a recording running already this does nothing and succeeds: no
    /// second sink is opened and nothing is reset. Otherwise a sink of
    /// the policy's format is opened, and the recording runs from
    /// `now_ms` unless the sink could not be opened, which leaves the
    /// recorder idle and is the error returned.
    pub fn start_recording(&mut self, mode: SessionMode, now_ms: u64, label: String) -> (r: Result<
        (),
        SinkError,
    >)
        requires
            old(self).wf(),
        ensures
            final(self).wf(),
            final(self)@ == start_model(old(self)@, mode, now_ms, label@, r is Ok),
            old(self)@.state == RecordingState::Recording ==> r is Ok && *final(self) == *old(self),
            old(self)@.state != RecordingState::Recording && !sink_possible(old(self)@.policy) ==> r
                is Err,
            old(self)@.state != RecordingState::Recording && sink_certain(old(self)@.policy) ==> r
                is Ok,
            r matches Err(e) ==> e == SinkError::EncoderUnavailable || e == SinkError::InvalidSettings,
    {
        if self.is_recording() {
            return Ok(());
        }
        match EncodeSink::open(
            self.policy.save_format,
            self.policy.sample_rate,
            self.policy.bit_rate,
            self.policy.quality,
        ) {
            Ok(sink) => {
                self.sink = Some(sink);
                self.samples_accepted = 0;
                self.started_at_ms = now_ms;
                self.last_loud_ms = now_ms;
                self.mode = mode;
                self.label = label;
                self.state = RecordingState::Recording;
                if self.sinks_opened < u64::MAX {
                    self.sinks_opened = self.sinks_opened + 1;
                }
                Ok(())
            },
            Err(e) => Err(e),
        }
    }

    /// Hands a mixed chunk to the running recording, which encodes it
    /// and watches its level. See `accept_model` for what becomes of the
    /// recorder. Without a running recording the chunk is ignored.
    ///
    /// A WAV recording takes every chunk until the file is full; with an
    /// MP3 recording the codec may fail on any chunk.
    pub fn accept(&mut self, chunk: &MixedChunk, now_ms: u64) -> (outcome: AcceptOutcome)
        requires
            old(self).wf(),
        ensures
            final(self).wf(),
            final(self)@ == accept_model(
                old(self)@,
                chunk@.samples,
                now_ms,
                match outcome {
                    AcceptOutcome::Failed(e) => Some(e),
                    _ => None,
                },
            ).state,
            outcome == accept_model(
                old(self)@,
                chunk@.samples,
                now_ms,
                match outcome {
                    AcceptOutcome::Failed(e) => Some(e),
                    _ => None,
                },
            ).outcome,
            old(self)@.state != RecordingState::Recording ==> *final(self) == *old(self),
            old(self)@.state == RecordingState::Recording && !fits(old(self)@, chunk@.samples.len())
                ==> outcome == AcceptOutcome::Failed(SinkError::InputTooLong),
            old(self)@.state == RecordingState::Recording && fits(old(self)@, chunk@.samples.len())
                && outcome is Failed ==> old(self)@.policy.save_format == AudioFormat::Mp3 && outcome
                == AcceptOutcome::Failed(SinkError::CodecFailure),
    {
        if !self.is_recording() {
            return AcceptOutcome::Ignored;
        }
        let mut sink = self.sink.take().unwrap();
        match sink.encode(&chunk.samples) {
            Ok(()) => {
                self.samples_accepted = sink.samples_taken();
                self.sink = Some(sink);
                let level: u32 = LevelMeter::new().measure(&chunk.samples);
                if level >= self.policy.silence_threshold {
                    self.last_loud_ms = now_ms;
                }
                let silent_ms: u64 = if now_ms >= self.last_loud_ms {
                    now_ms - self.last_loud_ms
                } else {
                    0
                };
                match self.mode {
                    SessionMode::Manual => if silent_ms > self.policy.silence_duration_ms {
                        AcceptOutcome::StopRecommended
                    } else {
                        AcceptOutcome::Accepted
                    },
                    SessionMode::Triggered => AcceptOutcome::Accepted,
                }
            },
            Err(e) => {
                let ghost held = sink.held();
                let _ = sink.abandon();
                self.state = RecordingState::Idle;
                self.outcome = SessionOutcome::Failed;
                proof {
                    assert(old(self)@.recorded == held);
                }
                AcceptOutcome::Failed(e)
            },
        }
    }

    /// Stops the running recording and closes its sink. Without a
    /// running recording this does nothing and returns `None`.
    ///
    /// A recording that ran for less than the policy's minimum is
    /// discarded: its sink is abandoned, not finalized, and `None` comes
    /// back. Any other recording is finalized into an artifact that
    /// carries the recording's label, the time the recording ran, the
    /// number of samples it took and the bytes of its file. A WAV
    /// recording always gives its artifact; with an MP3 recording the
    /// codec may fail on the flush, which is the error returned. The
    /// recorder is idle afterwards in every case.
    pub fn stop_recording(&mut self, now_ms: u64) -> (r: Result<Option<Artifact>, SinkError>)
        requires
            old(self).wf(),
        ensures
            final(self).wf(),
            final(self)@ == stop_model(old(self)@, now_ms, r is Ok),
            old(self)@.state != RecordingState::Recording ==> r == Ok::<Option<Artifact>, SinkError>(None)
                && *final(self) == *old(self),
            old(self)@.state == RecordingState::Recording && too_short(old(self)@, now_ms) ==> r == Ok::<
                Option<Artifact>,
                SinkError,
            >(None),
            old(self)@.state == RecordingState::Recording && !too_short(old(self)@, now_ms) ==> match r {
                Ok(Some(artifact)) => describes(artifact, old(self)@, now_ms),
                Ok(None) => false,
                Err(e) => e == SinkError::CodecFailure && old(self)@.policy.save_format
                    == AudioFormat::Mp3,
            },
    {
        if !self.is_recording() {
            return Ok(None);
        }
        self.state = RecordingState::Stopped;
        let sink = self.sink.take().unwrap();
        let duration_ms: u64 = if now_ms >= self.started_at_ms {
            now_ms - self.started_at_ms
        } else {
            0
        };
        self.state = RecordingState::Idle;
        if duration_ms < self.policy.min_recording_ms {
            let _ = sink.abandon();
            self.outcome = SessionOutcome::Abandoned;
            return Ok(None);
        }
        match sink.finalize() {
            Ok(data) => {
                self.outcome = SessionOutcome::Finalized;
                let name = self.label.clone();
                Ok(Some(Artifact { name, duration_ms, sample_count: self.samples_accepted, data }))
            },
            Err(e) => {
                self.outcome = SessionOutcome::Failed;
                Err(e)
            },
        }
    }
}

/// Starting twice is starting once: a second start right after a first
/// one that succeeded changes nothing, whatever mode, time and label
/// it is given, so one sink was opened and the counters were reset
/// once.
pub proof fn lemma_start_is_idempotent(
    pre: RecorderView,
    mode: SessionMode,
    now_ms: u64,
    label: Seq<char>,
    again_mode: SessionMode,
    again_ms: u64,
    again_label: Seq<char>,
    again_opened: bool,
)
    ensures
        start_model(
            start_model(pre, mode, now_ms, label, true),
            again_mode,
            again_ms,
            again_label,
            again_opened,
        ) == start_model(pre, mode, now_ms, label, true),
        pre.state != RecordingState::Recording ==> start_model(pre, mode, now_ms, label, true).sinks_opened
            == counted(pre.sinks_opened),
{
}

/// A recording that is stopped before the minimum duration has passed
/// leaves no artifact behind: the recorder is idle and reports that the
/// sink was abandoned, not finalized, however the sink would have
/// fared.
pub proof fn lemma_short_recording_is_abandoned(pre: RecorderView, now_ms: u64, finalized: bool)
    requires
        pre.state == RecordingState::Recording,
        too_short(pre, now_ms),
    ensures
        stop_model(pre, now_ms, finalized).state == RecordingState::Idle,
        stop_model(pre, now_ms, finalized).outcome == SessionOutcome::Abandoned,
{
}

/// Silence stops a manual recording and no other: a chunk below the
/// silence threshold that arrives longer after the last loud moment than
/// the policy allows recommends a stop when the recording was started by
/// hand, and is merely accepted when the trigger started it.
pub proof fn lemma_silence_stops_manual_only(pre: RecorderView, samples: Seq<i32>, now_ms: u64)
    requires
        pre.state == RecordingState::Recording,
        !is_loud(pre.policy, samples),
        elapsed_ms(pre.last_loud_ms, now_ms) > pre.policy.silence_duration_ms,
    ensures
        pre.mode == SessionMode::Manual ==> accept_model(pre, samples, now_ms, None).outcome
            == AcceptOutcome::StopRecommended,
        pre.mode == SessionMode::Triggered ==> accept_model(pre, samples, now_ms, None).outcome
            == AcceptOutcome::Accepted,
{
}

/// Why a recording that was kept in memory could not be saved.
#[derive(Debug, Clone, Copy, PartialEq, Eq, Structural)]
pub enum SaveError {
    /// Neither line holds a sample.
    NoAudio,
    /// The encoder refused the recording or failed on it.
    Encode(SinkError),
}

/// Mixes a recording whose two lines were kept whole and encodes the
/// mix as MP3 with the given audio settings. Returns the bytes of the
/// file.
///
/// A recording without a single sample is refused with `NoAudio`. One
/// that the encoder cannot take is refused with the encoder's reason.
/// For any other the codec decides.
pub fn save_recording(mic_data: &Vec<i32>, speaker_data: &Vec<i32>, audio: &AudioConfig) -> (r: Result<
    Vec<u8>,
    SaveError,
>)
    ensures
        mic_data@.len() == 0 && speaker_data@.len() == 0 ==> r == Err::<Vec<u8>, SaveError>(
            SaveError::NoAudio,
        ),
        mic_data@.len() > 0 || speaker_data@.len() > 0 ==> match r {
            Ok(_) => encoder_of(*audio).takes(longer_len(mic_data@, speaker_data@)) is None,
            Err(SaveError::NoAudio) => false,
            Err(SaveError::Encode(e)) => match encoder_of(*audio).takes(
                longer_len(mic_data@, speaker_data@),
            ) {
                Some(refusal) => e == refusal,
                None => e == SinkError::EncoderUnavailable || e == SinkError::InvalidSettings || e
                    == SinkError::CodecFailure,
            },
        },
{
    if mic_data.len() == 0 && speaker_data.len() == 0 {
        return Err(SaveError::NoAudio);
    }
    let mixed = Mp3Encoder::mix_channels(mic_data, speaker_data);
    let encoder = Mp3Encoder::new(audio.sample_rate, audio.channels, audio.bitrate, audio.quality);
    match encoder.encode_to_file(&mixed) {
        Ok(bytes) => Ok(bytes),
        Err(e) => Err(SaveError::Encode(e)),
    }
}

/// Names the file of a saved call after the time stamp of the moment:
/// `recording_`, the time stamp, `.mp3`.
pub fn recording_file_name(timestamp: &str) -> (name: String)
    ensures
        name@ == "recording_"@ + timestamp@ + ".mp3"@,
{
    let mut name = String::from_str("recording_");
    name.append(timestamp);
    name.append(".mp3");
    name
}

/// The encoder that audio settings ask for.
pub open spec fn encoder_of(audio: AudioConfig) -> Mp3Encoder {
    Mp3Encoder {
        sample_rate: audio.sample_rate,
        channels: audio.channels,
        bitrate: audio.bitrate,
        quality: if audio.quality > WORST_QUALITY {
            WORST_QUALITY
        } else {
            audio.quality
        },
    }
}

/// A recorder together with the capture that feeds it. The capture runs
/// from `start` to `stop`, and recordings are started and stopped while
/// it runs or not.
pub struct RecorderManager {
    recorder: Recorder,
    capturing: bool,
}

impl RecorderManager {
    /// The invariant of a manager is that of its recorder.
    pub closed spec fn wf(&self) -> bool {
        self.recorder.wf()
    }

    /// What the recorder holds.
    pub closed spec fn recorder(&self) -> RecorderView {
        self.recorder@
    }

    /// Whether the capture runs.
    pub closed spec fn capturing(&self) -> bool {
        self.capturing
    }

    /// A manager with an idle recorder and no capture running.
    pub fn new(policy: SessionPolicy) -> (m: RecorderManager)
        ensures
            m.wf(),
            !m.capturing(),
            m.recorder().policy == policy,
            m.recorder().state == RecordingState::Idle,
            m.recorder().outcome == SessionOutcome::Nothing,
            m.recorder().sinks_opened == 0,
    {
        RecorderManager { recorder: Recorder::new(policy), capturing: false }
    }

    /// Notes that the capture runs. Returns whether it has to be
    /// started now: it has not if it runs already.
    pub fn start(&mut self) -> (begin: bool)
        ensures
            begin == !old(self).capturing(),
            final(self).capturing(),
            final(self).recorder() == old(self).recorder(),
            old(self).wf() ==> final(self).wf(),
    {
        let begin = !self.capturing;
        self.capturing = true;
        begin
    }

    /// Notes that the capture has ended. Returns whether it has to be
    /// shut down now: it has not if it does not run.
    pub fn stop(&mut self) -> (end: bool)
        ensures
            end == old(self).capturing(),
            !final(self).capturing(),
            final(self).recorder() == old(self).recorder(),
            old(self).wf() ==> final(self).wf(),
    {
        let end = self.capturing;
        self.capturing = false;
        end
    }

    /// Starts a recording, as `Recorder::start_recording` does.
    pub fn start_recording(&mut self, mode: SessionMode, now_ms: u64, label: String) -> (r: Result<
        (),
        SinkError,
    >)
        requires
            old(self).wf(),
        ensures
            final(self).wf(),
            final(self).capturing() == old(self).capturing(),
            final(self).recorder() == start_model(old(self).recorder(), mode, now_ms, label@, r is Ok),
            old(self).recorder().state == RecordingState::Recording ==> r is Ok,
            old(self).recorder().state != RecordingState::Recording && !sink_possible(
                old(self).recorder().policy,
            ) ==> r is Err,
            old(self).recorder().state != RecordingState::Recording && sink_certain(
                old(self).recorder().policy,
            ) ==> r is Ok,
            r matches Err(e) ==> e == SinkError::EncoderUnavailable || e == SinkError::InvalidSettings,
    {
        self.recorder.start_recording(mode, now_ms, label)
    }

    /// Hands a mixed chunk to the running recording, as
    /// `Recorder::accept` does.
    pub fn accept(&mut self, chunk: &MixedChunk, now_ms: u64) -> (outcome: AcceptOutcome)
        requires
            old(self).wf(),
        ensures
            final(self).wf(),
            final(self).capturing() == old(self).capturing(),
            final(self).recorder() == accept_model(
                old(self).recorder(),
                chunk@.samples,
                now_ms,
                match outcome {
                    AcceptOutcome::Failed(e) => Some(e),
                    _ => None,
                },
            ).state,
            outcome == accept_model(
                old(self).recorder(),
                chunk@.samples,
                now_ms,
                match outcome {
                    AcceptOutcome::Failed(e) => Some(e),
                    _ => None,
                },
            ).outcome,
            old(self).recorder().state == RecordingState::Recording && !fits(
                old(self).recorder(),
                chunk@.samples.len(),
            ) ==> outcome == AcceptOutcome::Failed(SinkError::InputTooLong),
            old(self).recorder().state == RecordingState::Recording && fits(
                old(self).recorder(),
                chunk@.samples.len(),
            ) && outcome is Failed ==> old(self).recorder().policy.save_format == AudioFormat::Mp3
                && outcome == AcceptOutcome::Failed(SinkError::CodecFailure),
    {
        self.recorder.accept(chunk, now_ms)
    }

    /// Stops the running recording, as `Recorder::stop_recording`
    /// does.
    pub fn stop_recording(&mut self, now_ms: u64) -> (r: Result<Option<Artifact>, SinkError>)
        requires
            old(self).wf(),
        ensures
            final(self).wf(),
            final(self).capturing() == old(self).capturing(),
            final(self).recorder() == stop_model(old(self).recorder(), now_ms, r is Ok),
            old(self).recorder().state != RecordingState::Recording ==> r == Ok::<
                Option<Artifact>,
                SinkError,
            >(None),
            old(self).recorder().state == RecordingState::Recording && too_short(
                old(self).recorder(),
                now_ms,
            ) ==> r == Ok::<Option<Artifact>, SinkError>(None),
            old(self).recorder().state == RecordingState::Recording && !too_short(
                old(self).recorder(),
                now_ms,
            ) ==> match r {
                Ok(Some(artifact)) => describes(artifact, old(self).recorder(), now_ms),
                Ok(None) => false,
                Err(e) => e == SinkError::CodecFailure && old(self).recorder().policy.save_format
                    == AudioFormat::Mp3,
            },
    {
        self.recorder.stop_recording(now_ms)
    }

    pub fn get_state(&self) -> (s: RecordingState)
        ensures
            s == self.recorder().state,
    {
        self.recorder.get_state()
    }
}

} // verus!
