//! The supervisor that wires the trigger to the recorder. A recording
//! belongs to whoever started it: the trigger stops what the trigger
//! started, a user stops what a user started, and silence ends a manual
//! recording only.

use vstd::prelude::*;
use crate::channel_mixer::{
    drain_queue, flattened, joined, tick_model, wait_left, ChannelMixer, ChannelMixerView, MixedView,
};
use crate::codec::{wav_image, SinkError};
use crate::dual_recorder::{lemma_mixed_values, mixed, remainder, MixerView, RecordingSession};
use crate::sample::quantized_seq;
use crate::frame_queue::ChunkView;
use crate::recorder::{
    accept_model, closed_with, describes, elapsed_ms, fits, sink_certain, sink_possible, start_model,
    stop_model,
    too_short, AcceptOutcome, Artifact, Recorder, RecorderView, RecordingState, SessionMode,
    SessionOutcome, SessionPolicy,
};
use crate::smart_recorder::AudioFormat;
use crate::trigger_monitor::{event_of, state_of, TriggerEvent, TriggerMonitor, TriggerState};

verus! {

/// What a call of the supervisor brought about.
#[derive(Debug, Clone, PartialEq, Eq)]
pub enum SupervisorEvent {
    /// Nothing changed hands.
    Nothing,
    /// A recording was started.
    Started,
    /// A recording could not be started.
    StartFailed(SinkError),
    /// A manual start was turned down because a triggered recording
    /// runs.
    StartRejected,
    /// A recording ended and left this artifact.
    Saved(Artifact),
    /// A recording ended and was discarded as too short.
    Discarded,
    /// A recording was given up because its sink failed.
    Failed(SinkError),
}

/// What a supervisor holds, as plain values.
pub ghost struct SupervisorView {
    pub trigger: TriggerState,
    pub mixer: ChannelMixerView,
    pub recorder: RecorderView,
}

/// Whether the recorder runs a recording that `mode` started.
pub open spec fn owned_by(recorder: RecorderView, mode: SessionMode) -> bool {
    recorder.state == RecordingState::Recording && recorder.mode == mode
}

/// Whether the event of a start fits the policy: the recording is
/// started, or it is not for want of a sink. It is not started where no
/// sink can be opened, and it is where one is sure to open.
pub open spec fn start_event_fits(event: SupervisorEvent, policy: SessionPolicy) -> bool {
    match event {
        SupervisorEvent::Started => sink_possible(policy),
        SupervisorEvent::StartFailed(e) => !sink_certain(policy) && (e == SinkError::EncoderUnavailable
            || e == SinkError::InvalidSettings),
        _ => false,
    }
}

/// Whether the event of a stop fits the recording `pre` stopped at
/// `now_ms`: too short a recording is discarded, and any other is saved
/// as its artifact, unless it is an MP3 recording and the codec fails.
pub open spec fn stop_event_fits(event: SupervisorEvent, pre: RecorderView, now_ms: u64) -> bool {
    match event {
        SupervisorEvent::Saved(artifact) => !too_short(pre, now_ms) && describes(artifact, pre, now_ms),
        SupervisorEvent::Discarded => too_short(pre, now_ms),
        SupervisorEvent::Failed(e) => !too_short(pre, now_ms) && e == SinkError::CodecFailure
            && pre.policy.save_format == AudioFormat::Mp3,
        _ => false,
    }
}

/// The event that stands for the result of stopping a running
/// recording.
pub fn stop_event(r: Result<Option<Artifact>, SinkError>) -> (event: SupervisorEvent)
    ensures
        event == match r {
            Ok(Some(artifact)) => SupervisorEvent::Saved(artifact),
            Ok(None) => SupervisorEvent::Discarded,
            Err(e) => SupervisorEvent::Failed(e),
        },
{
    match r {
        Ok(Some(artifact)) => SupervisorEvent::Saved(artifact),
        Ok(None) => SupervisorEvent::Discarded,
        Err(e) => SupervisorEvent::Failed(e),
    }
}

/// Starts and stops recordings on behalf of the trigger and of the
/// user, and feeds the running recording from the capture queues.
pub struct SessionSupervisor {
    monitor: TriggerMonitor,
    mixer: ChannelMixer,
    recorder: Recorder,
}

impl View for SessionSupervisor {
    type V = SupervisorView;

    closed spec fn view(&self) -> SupervisorView {
        SupervisorView { trigger: self.monitor.state, mixer: self.mixer@, recorder: self.recorder@ }
    }
}

impl SessionSupervisor {
    /// The invariant of a supervisor is that of its recorder.
    pub closed spec fn wf(&self) -> bool {
        self.recorder.wf()
    }

    /// A supervisor with an inactive trigger, an empty mixer and an
    /// idle recorder.
    pub fn new(policy: SessionPolicy, wait_budget: u32) -> (s: SessionSupervisor)
        ensures
            s.wf(),
            s@.trigger == TriggerState::Inactive,
            s@.mixer == (ChannelMixerView {
                lines: MixerView { mic: Seq::empty(), speaker: Seq::empty() },
                wait_budget: wait_budget,
                waited: 0,
                next_sequence: 0,
            }),
            s@.recorder.policy == policy,
            s@.recorder.state == RecordingState::Idle,
            s@.recorder.outcome == SessionOutcome::Nothing,
            s@.recorder.sinks_opened == 0,
    {
        SessionSupervisor {
            monitor: TriggerMonitor::new(),
            mixer: ChannelMixer::new(wait_budget),
            recorder: Recorder::new(policy),
        }
    }

    /// Whether a recording runs.
    pub fn is_recording(&self) -> (b: bool)
        ensures
            b == (self@.recorder.state == RecordingState::Recording),
    {
        self.recorder.is_recording()
    }

    /// Who started the running recording, or the last one.
    pub fn mode(&self) -> (m: SessionMode)
        ensures
            m == self@.recorder.mode,
    {
        self.recorder.mode()
    }

    /// How the last recording ended.
    pub fn last_outcome(&self) -> (o: SessionOutcome)
        ensures
            o == self@.recorder.outcome,
    {
        self.recorder.last_outcome()
    }

    /// The number of recordings started so far.
    pub fn recordings_started(&self) -> (n: u64)
        ensures
            n as nat == self@.recorder.sinks_opened,
    {
        self.recorder.sinks_opened()
    }

    /// The number of samples the running recording has taken, or the
    /// last one took.
    pub fn samples_accepted(&self) -> (n: u64)
        ensures
            n as nat == self@.recorder.samples_accepted,
    {
        self.recorder.samples_accepted()
    }

    /// Takes one answer of the presence oracle.
    ///
    /// When the trigger becomes active and no recording runs, a
    /// triggered recording is started under `label`. When the trigger
    /// becomes inactive and a triggered recording runs, it is stopped
    /// and its artifact, or its absence, comes back. A poll that does
    /// not change the trigger does nothing, and a manual recording is
    /// never touched.
    pub fn on_poll(&mut self, present: bool, now_ms: u64, label: String) -> (event: SupervisorEvent)
        requires
            old(self).wf(),
        ensures
            final(self).wf(),
            final(self)@.trigger == state_of(present),
            final(self)@.mixer == old(self)@.mixer,
            event_of(old(self)@.trigger, present) == Some(TriggerEvent::Activated) && old(
                self,
            )@.recorder.state != RecordingState::Recording ==> final(self)@.recorder == start_model(
                old(self)@.recorder,
                SessionMode::Triggered,
                now_ms,
                label@,
                event == SupervisorEvent::Started,
            ) && start_event_fits(event, old(self)@.recorder.policy),
            event_of(old(self)@.trigger, present) == Some(TriggerEvent::Deactivated) && owned_by(
                old(self)@.recorder,
                SessionMode::Triggered,
            ) ==> final(self)@.recorder == stop_model(old(self)@.recorder, now_ms, !(event is Failed))
                && stop_event_fits(event, old(self)@.recorder, now_ms),
            !(event_of(old(self)@.trigger, present) == Some(TriggerEvent::Activated) && old(
                self,
            )@.recorder.state != RecordingState::Recording) && !(event_of(old(self)@.trigger, present)
                == Some(TriggerEvent::Deactivated) && owned_by(
                old(self)@.recorder,
                SessionMode::Triggered,
            )) ==> final(self)@.recorder == old(self)@.recorder && event == SupervisorEvent::Nothing,
    {
        match self.monitor.poll(present) {
            Some(TriggerEvent::Activated) => {
                if self.recorder.is_recording() {
                    SupervisorEvent::Nothing
                } else {
                    match self.recorder.start_recording(SessionMode::Triggered, now_ms, label) {
                        Ok(()) => SupervisorEvent::Started,
                        Err(e) => SupervisorEvent::StartFailed(e),
                    }
                }
            },
            Some(TriggerEvent::Deactivated) => {
                if self.recorder.is_recording() && is_triggered(self.recorder.mode()) {
                    stop_event(self.recorder.stop_recording(now_ms))
                } else {
                    SupervisorEvent::Nothing
                }
            },
            None => SupervisorEvent::Nothing,
        }
    }

    /// Starts a recording by hand, under `label`. While a triggered
    /// recording runs the start is rejected, and while a manual one runs
    /// it does nothing.
    pub fn start_manual(&mut self, now_ms: u64, label: String) -> (event: SupervisorEvent)
        requires
            old(self).wf(),
        ensures
            final(self).wf(),
            final(self)@.trigger == old(self)@.trigger,
            final(self)@.mixer == old(self)@.mixer,
            owned_by(old(self)@.recorder, SessionMode::Triggered) ==> event
                == SupervisorEvent::StartRejected && final(self)@.recorder == old(self)@.recorder,
            owned_by(old(self)@.recorder, SessionMode::Manual) ==> event == SupervisorEvent::Nothing
                && final(self)@.recorder == old(self)@.recorder,
            old(self)@.recorder.state != RecordingState::Recording ==> final(self)@.recorder
                == start_model(
                old(self)@.recorder,
                SessionMode::Manual,
                now_ms,
                label@,
                event == SupervisorEvent::Started,
            ) && start_event_fits(event, old(self)@.recorder.policy),
    {
        if self.recorder.is_recording() {
            if is_triggered(self.recorder.mode()) {
                SupervisorEvent::StartRejected
            } else {
                SupervisorEvent::Nothing
            }
        } else {
            match self.recorder.start_recording(SessionMode::Manual, now_ms, label) {
                Ok(()) => SupervisorEvent::Started,
                Err(e) => SupervisorEvent::StartFailed(e),
            }
        }
    }

    /// Stops the manual recording, if one runs, and returns its
    /// artifact or its absence. A triggered recording is not stopped by
    /// hand.
    pub fn stop_manual(&mut self, now_ms: u64) -> (event: SupervisorEvent)
        requires
            old(self).wf(),
        ensures
            final(self).wf(),
            final(self)@.trigger == old(self)@.trigger,
            final(self)@.mixer == old(self)@.mixer,
            owned_by(old(self)@.recorder, SessionMode::Manual) ==> final(self)@.recorder == stop_model(
                old(self)@.recorder,
                now_ms,
                !(event is Failed),
            ) && stop_event_fits(event, old(self)@.recorder, now_ms),
            !owned_by(old(self)@.recorder, SessionMode::Manual) ==> final(self)@.recorder == old(
                self,
            )@.recorder && event == SupervisorEvent::Nothing,
    {
        if self.recorder.is_recording() && !is_triggered(self.recorder.mode()) {
            stop_event(self.recorder.stop_recording(now_ms))
        } else {
            SupervisorEvent::Nothing
        }
    }

    /// One turn of the recording loop: empties the capture queues into
    /// the mixer and hands the chunk the mixer gives, if any, to the
    /// recorder.
    ///
    /// A chunk that arrives while nothing is recorded is dropped. A
    /// failure of the sink ends the recording and comes back as
    /// `Failed`. When a manual recording has been silent for too long it
    /// is stopped, and the event is that of the stop. Every other turn
    /// gives `Nothing`.
    pub fn pump(&mut self, capture: &mut RecordingSession, now_ms: u64) -> (event: SupervisorEvent)
        requires
            old(self).wf(),
            old(capture).wf(),
        ensures
            final(self).wf(),
            final(capture).wf(),
            final(capture).stop_signal == old(capture).stop_signal,
            final(capture).mic_line == old(capture).mic_line,
            final(capture).speaker_line == old(capture).speaker_line,
            final(capture).sample_rate == old(capture).sample_rate,
            final(capture).mic_receiver@ == Seq::<ChunkView>::empty(),
            final(capture).speaker_receiver@ == Seq::<ChunkView>::empty(),
            final(capture).mic_receiver.capacity_spec() == old(capture).mic_receiver.capacity_spec(),
            final(capture).speaker_receiver.capacity_spec() == old(
                capture,
            ).speaker_receiver.capacity_spec(),
            final(capture).mic_receiver.dropped_spec() == old(capture).mic_receiver.dropped_spec(),
            final(capture).speaker_receiver.dropped_spec() == old(
                capture,
            ).speaker_receiver.dropped_spec(),
            final(self)@.trigger == old(self)@.trigger,
            final(self)@.mixer == tick_model(
                old(self)@.mixer,
                flattened(old(capture).mic_receiver@),
                flattened(old(capture).speaker_receiver@),
                now_ms,
            ).state,
            pump_fits(
                old(self)@.recorder,
                tick_model(
                    old(self)@.mixer,
                    flattened(old(capture).mic_receiver@),
                    flattened(old(capture).speaker_receiver@),
                    now_ms,
                ).emitted,
                now_ms,
                final(self)@.recorder,
                event,
            ),
    {
        let mic_in = drain_queue(&mut capture.mic_receiver);
        let speaker_in = drain_queue(&mut capture.speaker_receiver);
        self.feed(mic_in, speaker_in, now_ms)
    }

    /// One turn of the recording loop on samples that are already out
    /// of their queues: what `pump` does once the queues are empty. A
    /// caller that shares the queues with the capture side empties them
    /// with `drain_queue` and lets go of them before it calls this, so
    /// that the capture side never waits for the encoder.
    pub fn feed(&mut self, mic_in: Vec<i32>, speaker_in: Vec<i32>, now_ms: u64) -> (event: SupervisorEvent)
        requires
            old(self).wf(),
        ensures
            final(self).wf(),
            final(self)@.trigger == old(self)@.trigger,
            final(self)@.mixer == tick_model(old(self)@.mixer, mic_in@, speaker_in@, now_ms).state,
            pump_fits(
                old(self)@.recorder,
                tick_model(old(self)@.mixer, mic_in@, speaker_in@, now_ms).emitted,
                now_ms,
                final(self)@.recorder,
                event,
            ),
    {
        let chunk = self.mixer.feed(mic_in, speaker_in, now_ms);
        match chunk {
            None => SupervisorEvent::Nothing,
            Some(mixed) => {
                match self.recorder.accept(&mixed, now_ms) {
                    AcceptOutcome::Ignored => SupervisorEvent::Nothing,
                    AcceptOutcome::Accepted => SupervisorEvent::Nothing,
                    AcceptOutcome::StopRecommended => stop_event(self.recorder.stop_recording(now_ms)),
                    AcceptOutcome::Failed(e) => SupervisorEvent::Failed(e),
                }
            },
        }
    }
}

/// What a turn of the recording loop does to the recorder, given the
/// chunk the mixer gave.
///
/// Without a chunk, or without a running recording, nothing happens. A
/// chunk the recording has no room for ends it. Otherwise the recorder
/// takes the chunk as `accept_model` says, unless the codec of an MP3
/// recording fails on it, which ends the recording; and if taking the
/// chunk recommends a stop, the recording is stopped on the spot as
/// `stop_model` says.
pub open spec fn pump_fits(
    pre: RecorderView,
    emitted: Option<MixedView>,
    now_ms: u64,
    post: RecorderView,
    event: SupervisorEvent,
) -> bool {
    match emitted {
        None => post == pre && event == SupervisorEvent::Nothing,
        Some(chunk) => {
            let taken = accept_model(pre, chunk.samples, now_ms, None);
            if pre.state != RecordingState::Recording {
                post == pre && event == SupervisorEvent::Nothing
            } else if !fits(pre, chunk.samples.len()) {
                post == closed_with(pre, SessionOutcome::Failed) && event == SupervisorEvent::Failed(
                    SinkError::InputTooLong,
                )
            } else {
                ||| pre.policy.save_format == AudioFormat::Mp3 && post == closed_with(
                    pre,
                    SessionOutcome::Failed,
                ) && event == SupervisorEvent::Failed(SinkError::CodecFailure)
                ||| taken.outcome == AcceptOutcome::Accepted && post == taken.state && event
                    == SupervisorEvent::Nothing
                ||| taken.outcome == AcceptOutcome::StopRecommended && post == stop_model(
                    taken.state,
                    now_ms,
                    !(event is Failed),
                ) && stop_event_fits(event, taken.state, now_ms)
            }
        },
    }
}

/// Whether a mode is that of the trigger.
pub fn is_triggered(mode: SessionMode) -> (b: bool)
    ensures
        b == (mode == SessionMode::Triggered),
{
    match mode {
        SessionMode::Triggered => true,
        SessionMode::Manual => false,
    }
}

/// A mixer and a recorder side by side, as a turn of the recording loop
/// leaves them.
pub ghost struct Turn {
    pub mixer: ChannelMixerView,
    pub recorder: RecorderView,
}

/// A turn of the recording loop that no failure of the sink disturbs
/// and that does not end in a stop: the mixer ticks, and the recorder
/// takes the chunk the tick gives, if it gives one.
pub open spec fn turn_model(
    mixer: ChannelMixerView,
    recorder: RecorderView,
    mic_in: Seq<i32>,
    speaker_in: Seq<i32>,
    now_ms: u64,
) -> Turn {
    let tick = tick_model(mixer, mic_in, speaker_in, now_ms);
    Turn {
        mixer: tick.state,
        recorder: match tick.emitted {
            Some(chunk) => accept_model(recorder, chunk.samples, now_ms, None).state,
            None => recorder,
        },
    }
}

/// A turn of `pump` or `feed` on a triggered WAV recording that has room
/// for the chunk is the turn of `turn_model`, and its event is
/// `Nothing`: such a recording is not stopped by silence, and its sink
/// does not fail.
pub proof fn lemma_turn_of_triggered_wav(
    mixer: ChannelMixerView,
    pre: RecorderView,
    mic_in: Seq<i32>,
    speaker_in: Seq<i32>,
    now_ms: u64,
    post: RecorderView,
    event: SupervisorEvent,
)
    requires
        pre.state == RecordingState::Recording,
        pre.mode == SessionMode::Triggered,
        pre.policy.save_format == AudioFormat::Wav,
        tick_model(mixer, mic_in, speaker_in, now_ms).emitted matches Some(chunk) ==> fits(
            pre,
            chunk.samples.len(),
        ),
        pump_fits(pre, tick_model(mixer, mic_in, speaker_in, now_ms).emitted, now_ms, post, event),
    ensures
        post == turn_model(mixer, pre, mic_in, speaker_in, now_ms).recorder,
        event == SupervisorEvent::Nothing,
{
}

/// The mixer and the recorder after a series of turns in which only the
/// microphone line is fed: turn `j` gets the samples `rounds[j]` at time
/// `times[j]`, and the speaker line gets nothing.
pub open spec fn mic_only_turns(
    mixer: ChannelMixerView,
    recorder: RecorderView,
    rounds: Seq<Seq<i32>>,
    times: Seq<u64>,
) -> Turn
    decreases rounds.len(),
{
    if rounds.len() == 0 || times.len() != rounds.len() {
        Turn { mixer: mixer, recorder: recorder }
    } else {
        let turn = turn_model(mixer, recorder, rounds[0], Seq::empty(), times[0]);
        mic_only_turns(turn.mixer, turn.recorder, rounds.drop_first(), times.drop_first())
    }
}

/// The mixer and the recorder after a series of turns in which both
/// lines are fed the same samples: turn `j` gets `rounds[j]` on each
/// line at time `times[j]`.
pub open spec fn twin_turns(
    mixer: ChannelMixerView,
    recorder: RecorderView,
    rounds: Seq<Seq<i32>>,
    times: Seq<u64>,
) -> Turn
    decreases rounds.len(),
{
    if rounds.len() == 0 || times.len() != rounds.len() {
        Turn { mixer: mixer, recorder: recorder }
    } else {
        let turn = turn_model(mixer, recorder, rounds[0], rounds[0], times[0]);
        twin_turns(turn.mixer, turn.recorder, rounds.drop_first(), times.drop_first())
    }
}

/// With a speaker line that never gets data, no sample of the
/// microphone is lost, mixed or moved on its way to the sink. After any
/// series of turns, what the recording has taken, followed by what the
/// mixer still holds of the microphone line, is what the recording had
/// taken before, followed by what the mixer held and by every sample
/// that arrived, in order. The recording still runs, and the wait that
/// is left only shrinks. Once the budget is used up the mixer holds
/// nothing back: every turn hands on all that has arrived by then.
pub proof fn lemma_lone_microphone_is_recorded(
    mixer: ChannelMixerView,
    recorder: RecorderView,
    rounds: Seq<Seq<i32>>,
    times: Seq<u64>,
)
    requires
        mixer.lines.speaker.len() == 0,
        recorder.state == RecordingState::Recording,
        times.len() == rounds.len(),
    ensures
        ({
            let after = mic_only_turns(mixer, recorder, rounds, times);
            &&& after.recorder.recorded + after.mixer.lines.mic == recorder.recorded + mixer.lines.mic
                + joined(rounds)
            &&& after.recorder.samples_accepted + after.mixer.lines.mic.len()
                == recorder.samples_accepted + mixer.lines.mic.len() + joined(rounds).len()
            &&& after.recorder.state == RecordingState::Recording
            &&& after.mixer.lines.speaker.len() == 0
            &&& after.mixer.wait_budget == mixer.wait_budget
            &&& mixer.waited <= after.mixer.waited
            &&& wait_left(after.mixer) <= wait_left(mixer)
            &&& wait_left(mixer) == 0 && rounds.len() > 0 ==> after.mixer.lines.mic.len() == 0
        }),
    decreases rounds.len(),
{
    if rounds.len() == 0 {
        assert(joined(rounds) =~= Seq::<i32>::empty());
        assert(recorder.recorded + mixer.lines.mic + joined(rounds) =~= recorder.recorded
            + mixer.lines.mic);
    } else {
        let mic = mixer.lines.mic + rounds[0];
        let speaker = mixer.lines.speaker + Seq::<i32>::empty();
        assert(speaker.len() == 0);
        let turn = turn_model(mixer, recorder, rounds[0], Seq::empty(), times[0]);
        let after = mic_only_turns(turn.mixer, turn.recorder, rounds.drop_first(), times.drop_first());
        assert(turn.recorder.recorded + turn.mixer.lines.mic =~= recorder.recorded + mic);
        lemma_lone_microphone_is_recorded(
            turn.mixer,
            turn.recorder,
            rounds.drop_first(),
            times.drop_first(),
        );
        assert(recorder.recorded + mic + joined(rounds.drop_first()) =~= recorder.recorded
            + mixer.lines.mic + joined(rounds));
        assert(joined(rounds).len() == rounds[0].len() + joined(rounds.drop_first()).len());
    }
}

/// A speaker line that never gets data holds the microphone back for no
/// longer than the wait budget. Take a mixer whose speaker line is
/// empty and whose microphone line holds samples by the first turn.
/// Once the turns that use up what is left of the budget and one turn
/// more have passed, the recording has taken every sample that was held
/// or has arrived, in order and unmixed, and the mixer holds none.
pub proof fn lemma_lone_microphone_reaches_sink(
    mixer: ChannelMixerView,
    recorder: RecorderView,
    rounds: Seq<Seq<i32>>,
    times: Seq<u64>,
)
    requires
        mixer.lines.speaker.len() == 0,
        recorder.state == RecordingState::Recording,
        rounds.len() == wait_left(mixer) + 1,
        times.len() == rounds.len(),
        (mixer.lines.mic + rounds[0]).len() > 0,
    ensures
        mic_only_turns(mixer, recorder, rounds, times).recorder.recorded == recorder.recorded
            + mixer.lines.mic + joined(rounds),
        mic_only_turns(mixer, recorder, rounds, times).mixer.lines.mic.len() == 0,
        wait_left(mic_only_turns(mixer, recorder, rounds, times).mixer) == 0,
    decreases rounds.len(),
{
    let after = mic_only_turns(mixer, recorder, rounds, times);
    lemma_lone_microphone_is_recorded(mixer, recorder, rounds, times);
    if mixer.waited < mixer.wait_budget {
        let speaker = mixer.lines.speaker + Seq::<i32>::empty();
        assert(speaker.len() == 0);
        let turn = turn_model(mixer, recorder, rounds[0], Seq::empty(), times[0]);
        assert(turn.mixer.lines.mic == mixer.lines.mic + rounds[0]);
        assert((turn.mixer.lines.mic + rounds.drop_first()[0]).len() > 0);
        lemma_lone_microphone_reaches_sink(
            turn.mixer,
            turn.recorder,
            rounds.drop_first(),
            times.drop_first(),
        );
    }
    assert(after.recorder.recorded + after.mixer.lines.mic =~= after.recorder.recorded);
}

/// Two lines that carry the same samples are recorded as those samples.
/// Take a mixer that holds nothing and a running recording, and let
/// every turn bring the same samples on both lines. Then the recording
/// takes every sample as it is, in order: the mean of a sample with
/// itself is the sample. No turn leaves anything behind in the mixer.
pub proof fn lemma_twin_lines_are_recorded(
    mixer: ChannelMixerView,
    recorder: RecorderView,
    rounds: Seq<Seq<i32>>,
    times: Seq<u64>,
)
    requires
        mixer.lines.mic.len() == 0,
        mixer.lines.speaker.len() == 0,
        recorder.state == RecordingState::Recording,
        times.len() == rounds.len(),
    ensures
        twin_turns(mixer, recorder, rounds, times).recorder.recorded == recorder.recorded + joined(
            rounds,
        ),
        twin_turns(mixer, recorder, rounds, times).recorder.samples_accepted
            == recorder.samples_accepted + joined(rounds).len(),
        twin_turns(mixer, recorder, rounds, times).recorder.state == RecordingState::Recording,
        twin_turns(mixer, recorder, rounds, times).recorder.started_at_ms == recorder.started_at_ms,
        twin_turns(mixer, recorder, rounds, times).recorder.policy == recorder.policy,
        twin_turns(mixer, recorder, rounds, times).recorder.label == recorder.label,
        twin_turns(mixer, recorder, rounds, times).mixer.lines.mic.len() == 0,
        twin_turns(mixer, recorder, rounds, times).mixer.lines.speaker.len() == 0,
    decreases rounds.len(),
{
    if rounds.len() == 0 {
        assert(recorder.recorded + joined(rounds) =~= recorder.recorded);
    } else {
        let round = rounds[0];
        let mic = mixer.lines.mic + round;
        let speaker = mixer.lines.speaker + round;
        assert(mic =~= round);
        assert(speaker =~= round);
        assert forall|i: int| 0 <= i < round.len() implies mixed(round, round)[i] == round[i] by {
            lemma_mixed_values(round, round);
        }
        assert(mixed(round, round) =~= round);
        assert(remainder(round, round.len()) =~= Seq::<i32>::empty());
        let turn = turn_model(mixer, recorder, round, round, times[0]);
        assert(turn.recorder.recorded =~= recorder.recorded + round);
        lemma_twin_lines_are_recorded(turn.mixer, turn.recorder, rounds.drop_first(), times.drop_first());
        assert(recorder.recorded + round + joined(rounds.drop_first()) =~= recorder.recorded + joined(
            rounds,
        ));
        assert(joined(rounds).len() == round.len() + joined(rounds.drop_first()).len());
    }
}

/// The artifact of a recording that was started at `started_ms`, fed
/// the same samples on both lines and stopped at `now_ms` tells of
/// exactly those samples: it counts them, it reports the time from the
/// start to the stop, and the file of a WAV recording holds the
/// quantized value of each, in order.
pub proof fn lemma_artifact_of_twin_lines(
    mixer: ChannelMixerView,
    started: RecorderView,
    rounds: Seq<Seq<i32>>,
    times: Seq<u64>,
    now_ms: u64,
    artifact: Artifact,
)
    requires
        mixer.lines.mic.len() == 0,
        mixer.lines.speaker.len() == 0,
        started.state == RecordingState::Recording,
        started.samples_accepted == 0,
        started.recorded.len() == 0,
        times.len() == rounds.len(),
        describes(artifact, twin_turns(mixer, started, rounds, times).recorder, now_ms),
    ensures
        artifact.sample_count as nat == joined(rounds).len(),
        artifact.duration_ms as nat == elapsed_ms(started.started_at_ms, now_ms),
        artifact.name@ == started.label,
        started.policy.save_format == AudioFormat::Wav ==> artifact.data@ == wav_image(
            started.policy.sample_rate,
            1,
            16,
            quantized_seq(joined(rounds)),
        ),
{
    lemma_twin_lines_are_recorded(mixer, started, rounds, times);
    assert(started.recorded + joined(rounds) =~= joined(rounds));
}

} // verus!
