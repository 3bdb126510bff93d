//! The two capture lines of a recording, microphone and speaker loopback:
//! the reduction of raw frames to mono samples, the pair of queues that
//! carries them, and the mixer that averages the two lines.

use vstd::prelude::*;
use crate::channel_mixer::{fed, mix_model, ChannelMixerView, MixedChunk, SourceCoverage};
use crate::frame_queue::{following, pushed, ChunkView, FrameQueue, SampleChunk, DEFAULT_QUEUE_CAPACITY};
use crate::sample::{
    apply_gain, clamp_gain, clamped_gain, gained, lemma_mean_range, mean_of, mean_sample, trunc_div,
    UNITY_GAIN,
};

verus! {

/// The sum of the samples of one frame, each with the gain applied.
pub open spec fn frame_sum(frame: Seq<i32>, gain: int) -> int
    decreases frame.len(),
{
    if frame.len() == 0 {
        0
    } else {
        frame_sum(frame.drop_last(), gain) + gained(frame.last() as int, gain)
    }
}

/// The mono sample of one frame: the sum of its gained samples divided
/// by the number of channels, rounded toward zero.
pub open spec fn frame_value(frame: Seq<i32>, channels: nat, gain: int) -> int {
    trunc_div(frame_sum(frame, gain), channels as int)
}

/// The mono samples of interleaved data: one for each run of `channels`
/// samples, and one more for what is left at the end. No channels, no
/// samples.
pub open spec fn downmixed(data: Seq<i32>, channels: nat, gain: int) -> Seq<i32>
    decreases data.len(),
{
    if data.len() == 0 || channels == 0 {
        Seq::empty()
    } else {
        let n = if channels < data.len() {
            channels as int
        } else {
            data.len() as int
        };
        seq![frame_value(data.subrange(0, n), channels, gain) as i32] + downmixed(
            data.subrange(n, data.len() as int),
            channels,
            gain,
        )
    }
}

/// Whether a width of raw samples, in bits, can be captured.
pub open spec fn depth_supported(bits_per_sample: u16) -> bool {
    bits_per_sample == 16 || bits_per_sample == 32
}

/// The value of a frame that is no longer than the number of channels is
/// a sample.
pub proof fn lemma_frame_value_range(frame: Seq<i32>, channels: nat, gain: int)
    requires
        0 < frame.len() <= channels,
    ensures
        i32::MIN as int <= frame_value(frame, channels, gain) <= i32::MAX as int,
{
    let sum = frame_sum(frame, gain);
    let c = channels as int;
    assert(frame.len() * 0x8000_0000 <= c * 0x8000_0000) by (nonlinear_arith)
        requires
            frame.len() <= c,
    ;
    lemma_frame_sum_range(frame, gain);
    assert(frame.len() * 0x7fff_ffff <= c * 0x7fff_ffff) by (nonlinear_arith)
        requires
            frame.len() <= c,
    ;
    if sum >= 0 {
        assert(sum / c <= 0x7fff_ffff) by (nonlinear_arith)
            requires
                0 <= sum <= c * 0x7fff_ffff,
                c > 0,
        ;
        assert(sum / c >= 0) by (nonlinear_arith)
            requires
                0 <= sum,
                c > 0,
        ;
    } else {
        assert((-sum) / c <= 0x8000_0000) by (nonlinear_arith)
            requires
                0 <= -sum <= c * 0x8000_0000,
                c > 0,
        ;
        assert((-sum) / c >= 0) by (nonlinear_arith)
            requires
                0 <= -sum,
                c > 0,
        ;
    }
}

/// The sum of a frame lies between the smallest and the largest sample,
/// each taken once per sample of the frame.
pub proof fn lemma_frame_sum_range(frame: Seq<i32>, gain: int)
    ensures
        -(frame.len() * 0x8000_0000) <= frame_sum(frame, gain) <= frame.len() * 0x7fff_ffff,
    decreases frame.len(),
{
    if frame.len() > 0 {
        lemma_frame_sum_range(frame.drop_last(), gain);
        assert((frame.len() - 1) * 0x8000_0000 + 0x8000_0000 == frame.len() * 0x8000_0000)
            by (nonlinear_arith);
        assert((frame.len() - 1) * 0x7fff_ffff + 0x7fff_ffff == frame.len() * 0x7fff_ffff)
            by (nonlinear_arith);
    }
}

/// Settings of a two-line capture: the rate samples are taken at and the
/// gain of each line, in thousandths.
#[derive(Debug, Clone, Copy, PartialEq, Eq, Structural)]
pub struct DualChannelRecorder {
    pub sample_rate: u32,
    pub mic_gain: u32,
    pub speaker_gain: u32,
}

/// A capture session: its sample rate, a capture side and a queue for
/// each line, and the flag that tells the capture sides to stop.
pub struct RecordingSession {
    pub mic_receiver: FrameQueue,
    pub speaker_receiver: FrameQueue,
    pub stop_signal: bool,
    pub mic_line: CaptureLine,
    pub speaker_line: CaptureLine,
    pub sample_rate: u32,
}

impl RecordingSession {
    /// Both queues are well formed.
    pub open spec fn wf(&self) -> bool {
        self.mic_receiver.wf() && self.speaker_receiver.wf()
    }
}

impl DualChannelRecorder {
    /// A recorder at the given sample rate with unity gain on both lines.
    pub fn new(sample_rate: u32) -> (r: DualChannelRecorder)
        ensures
            r.sample_rate == sample_rate,
            r.mic_gain == UNITY_GAIN,
            r.speaker_gain == UNITY_GAIN,
    {
        DualChannelRecorder { sample_rate, mic_gain: UNITY_GAIN, speaker_gain: UNITY_GAIN }
    }

    /// Sets the microphone gain, limited to `MAX_GAIN`.
    pub fn set_mic_gain(&mut self, gain: u32)
        ensures
            final(self).mic_gain as int == clamped_gain(gain as int),
            final(self).speaker_gain == old(self).speaker_gain,
            final(self).sample_rate == old(self).sample_rate,
    {
        self.mic_gain = clamp_gain(gain);
    }

    /// Sets the speaker gain, limited to `MAX_GAIN`.
    pub fn set_speaker_gain(&mut self, gain: u32)
        ensures
            final(self).speaker_gain as int == clamped_gain(gain as int),
            final(self).mic_gain == old(self).mic_gain,
            final(self).sample_rate == old(self).sample_rate,
    {
        self.speaker_gain = clamp_gain(gain);
    }

    /// Opens a capture session at the recorder's sample rate. Each line
    /// gets an empty queue of the default capacity and a capture side
    /// that applies the recorder's gain for that line, limited to
    /// `MAX_GAIN`, and numbers its chunks from 0. No stop signal yet.
    pub fn start_recording(&self) -> (session: RecordingSession)
        ensures
            session.wf(),
            session.sample_rate == self.sample_rate,
            session.mic_line.gain as int == clamped_gain(self.mic_gain as int),
            session.speaker_line.gain as int == clamped_gain(self.speaker_gain as int),
            session.mic_line.next_sequence == 0,
            session.speaker_line.next_sequence == 0,
            session.mic_receiver@ == Seq::<ChunkView>::empty(),
            session.speaker_receiver@ == Seq::<ChunkView>::empty(),
            session.mic_receiver.capacity_spec() == DEFAULT_QUEUE_CAPACITY as nat,
            session.speaker_receiver.capacity_spec() == DEFAULT_QUEUE_CAPACITY as nat,
            session.mic_receiver.dropped_spec() == 0,
            session.speaker_receiver.dropped_spec() == 0,
            !session.stop_signal,
    {
        RecordingSession {
            mic_receiver: FrameQueue::new(),
            speaker_receiver: FrameQueue::new(),
            stop_signal: false,
            mic_line: CaptureLine::new(self.mic_gain),
            speaker_line: CaptureLine::new(self.speaker_gain),
            sample_rate: self.sample_rate,
        }
    }

    /// Reduces interleaved raw samples to mono: every sample gets the
    /// gain, and each frame of `channels` samples becomes the sum of its
    /// samples divided by `channels`. Data of a sample width that cannot
    /// be captured, or of no channels, gives no samples.
    pub fn process_audio_buffer(data: &Vec<i32>, channels: usize, bits_per_sample: u16, gain: u32) -> (samples:
        Vec<i32>)
        ensures
            samples@ == packet_samples(data@, channels as nat, bits_per_sample, gain as int),
    {
        let mut samples: Vec<i32> = Vec::new();
        if !(bits_per_sample == 16 || bits_per_sample == 32) || channels == 0 {
            return samples;
        }
        let len: usize = data.len();
        let mut start: usize = 0;
        proof {
            let whole = downmixed(data@, channels as nat, gain as int);
            assert(data@.subrange(0, len as int) =~= data@);
            assert(samples@ + whole =~= whole);
        }
        while start < len
            invariant
                len == data@.len(),
                channels > 0,
                0 <= start <= len,
                samples@ + downmixed(data@.subrange(start as int, len as int), channels as nat, gain as int)
                    == downmixed(data@, channels as nat, gain as int),
            decreases len - start,
        {
            let end: usize = if len - start > channels {
                start + channels
            } else {
                len
            };
            let ghost rest = data@.subrange(start as int, len as int);
            let ghost frame = rest.subrange(0, end - start);
            let mut sum: i128 = 0;
            let mut i: usize = start;
            while i < end
                invariant
                    len == data@.len(),
                    start <= i <= end <= len,
                    frame == data@.subrange(start as int, end as int),
                    sum as int == frame_sum(frame.subrange(0, i - start), gain as int),
                decreases end - i,
            {
                let g: i32 = apply_gain(data[i], gain);
                proof {
                    let now = frame.subrange(0, i - start + 1);
                    assert(now.drop_last() =~= frame.subrange(0, i - start));
                    assert(now.last() == data@[i as int]);
                    lemma_frame_sum_range(frame.subrange(0, i - start), gain as int);
                    assert((i - start) * 0x7fff_ffff <= (i - start) * 0x8000_0000) by (nonlinear_arith)
                        requires
                            0 <= i - start,
                    ;
                    assert((i - start) * 0x8000_0000 <= 0xffff_ffff_ffff_ffff * 0x8000_0000)
                        by (nonlinear_arith)
                        requires
                            0 <= i - start <= 0xffff_ffff_ffff_ffff,
                    ;
                }
                sum = sum + g as i128;
                i += 1;
            }
            proof {
                assert(frame.subrange(0, end - start) =~= frame);
                lemma_frame_value_range(frame, channels as nat, gain as int);
                assert(rest.subrange(end - start, rest.len() as int) =~= data@.subrange(
                    end as int,
                    len as int,
                ));
            }
            let value: i128 = sum / (channels as i128);
            let ghost before = samples@;
            samples.push(value as i32);
            proof {
                let tail = downmixed(data@.subrange(end as int, len as int), channels as nat, gain as int);
                assert(downmixed(rest, channels as nat, gain as int) == seq![value as i32] + tail);
                assert(before.push(value as i32) + tail =~= before + (seq![value as i32] + tail));
            }
            start = end;
        }
        proof {
            assert(data@.subrange(len as int, len as int) =~= Seq::<i32>::empty());
            assert(samples@ + Seq::<i32>::empty() =~= samples@);
        }
        samples
    }
}

/// The mono samples of a packet of raw data: its downmix at a sample
/// width that can be captured, and nothing at any other.
pub open spec fn packet_samples(data: Seq<i32>, channels: nat, bits_per_sample: u16, gain: int) -> Seq<i32> {
    if depth_supported(bits_per_sample) {
        downmixed(data, channels, gain)
    } else {
        Seq::empty()
    }
}

/// The capture side of one line: it turns the packets of raw data that
/// the device delivers into chunks, numbers them, and puts them into the
/// line's queue.
#[derive(Debug, Clone, Copy, PartialEq, Eq, Structural)]
pub struct CaptureLine {
    pub gain: u32,
    pub next_sequence: u64,
}

impl CaptureLine {
    /// A line with the given gain, limited to `MAX_GAIN`, whose first
    /// chunk has the sequence number 0.
    pub fn new(gain: u32) -> (line: CaptureLine)
        ensures
            line.gain as int == clamped_gain(gain as int),
            line.next_sequence == 0,
    {
        CaptureLine { gain: clamp_gain(gain), next_sequence: 0 }
    }

    /// Takes one packet of interleaved raw data from the device. An
    /// empty packet is passed over. Any other is reduced to mono, tagged
    /// with the next sequence number and the capture time, and pushed
    /// into the queue, which drops it when it is full. Returns whether
    /// the queue took a chunk.
    pub fn on_packet(
        &mut self,
        queue: &mut FrameQueue,
        data: &Vec<i32>,
        channels: usize,
        bits_per_sample: u16,
        now_ms: u64,
    ) -> (accepted: bool)
        requires
            old(queue).wf(),
        ensures
            final(queue).wf(),
            final(queue).capacity_spec() == old(queue).capacity_spec(),
            final(self).gain == old(self).gain,
            data@.len() == 0 ==> !accepted && final(queue)@ == old(queue)@,
            data@.len() == 0 ==> final(queue).dropped_spec() == old(queue).dropped_spec(),
            data@.len() == 0 ==> final(self).next_sequence == old(self).next_sequence,
            data@.len() > 0 ==> accepted == (old(queue)@.len() < old(queue).capacity_spec()),
            data@.len() > 0 ==> final(queue)@ == pushed(
                old(queue)@,
                old(queue).capacity_spec(),
                ChunkView {
                    samples: packet_samples(data@, channels as nat, bits_per_sample, old(self).gain as int),
                    sequence: old(self).next_sequence,
                    timestamp_ms: now_ms,
                },
            ),
            data@.len() > 0 ==> final(self).next_sequence == following(old(self).next_sequence),
            data@.len() > 0 ==> final(queue).dropped_spec() == if accepted {
                old(queue).dropped_spec()
            } else if old(queue).dropped_spec() < u64::MAX {
                old(queue).dropped_spec() + 1
            } else {
                old(queue).dropped_spec()
            },
    {
        if data.len() == 0 {
            return false;
        }
        let samples = DualChannelRecorder::process_audio_buffer(data, channels, bits_per_sample, self.gain);
        let chunk = SampleChunk { samples, sequence: self.next_sequence, timestamp_ms: now_ms };
        if self.next_sequence < u64::MAX {
            self.next_sequence = self.next_sequence + 1;
        }
        queue.push(chunk)
    }
}

/// What the lines of a mixer hold: the samples of each line that are not
/// mixed yet.
pub ghost struct MixerView {
    pub mic: Seq<i32>,
    pub speaker: Seq<i32>,
}

/// The number of samples a mix takes from each line: as many as the
/// shorter line holds.
pub open spec fn overlap(mic: Seq<i32>, speaker: Seq<i32>) -> nat {
    if mic.len() < speaker.len() {
        mic.len()
    } else {
        speaker.len()
    }
}

/// The mix of two lines over their overlap: at each place the mean of the
/// two samples there.
pub open spec fn mixed(mic: Seq<i32>, speaker: Seq<i32>) -> Seq<i32> {
    Seq::new(overlap(mic, speaker), |i: int| mean_of(mic[i] as int, speaker[i] as int) as i32)
}

/// What is left of a line after a mix took its first `n` samples.
pub open spec fn remainder(line: Seq<i32>, n: nat) -> Seq<i32> {
    line.subrange(n as int, line.len() as int)
}

/// The number of mixes a lone line waits for the other in a mixer made
/// with `AudioMixer::new`.
pub const DEFAULT_WAIT_BUDGET: u32 = 4;

/// Collects the samples of the two lines and mixes them into one stream
/// of chunks. Where both lines hold samples, a mix averages them sample
/// by sample as far as both reach. A line that is alone waits for the
/// other for a budget of mixes and then passes unmixed. Every chunk
/// says which lines it came from.
pub struct AudioMixer {
    mic_buffer: Vec<i32>,
    speaker_buffer: Vec<i32>,
    wait_budget: u32,
    waited: u32,
    next_sequence: u64,
}

impl View for AudioMixer {
    type V = ChannelMixerView;

    closed spec fn view(&self) -> ChannelMixerView {
        ChannelMixerView {
            lines: MixerView { mic: self.mic_buffer@, speaker: self.speaker_buffer@ },
            wait_budget: self.wait_budget,
            waited: self.waited,
            next_sequence: self.next_sequence,
        }
    }
}

impl AudioMixer {
    /// A mixer that holds nothing and lets a lone line wait
    /// `DEFAULT_WAIT_BUDGET` mixes for the other.
    pub fn new() -> (m: AudioMixer)
        ensures
            m@ == (ChannelMixerView {
                lines: MixerView { mic: Seq::empty(), speaker: Seq::empty() },
                wait_budget: DEFAULT_WAIT_BUDGET,
                waited: 0,
                next_sequence: 0,
            }),
    {
        AudioMixer::with_wait_budget(DEFAULT_WAIT_BUDGET)
    }

    /// A mixer that holds nothing and lets a lone line wait `wait_budget`
    /// mixes for the other.
    pub fn with_wait_budget(wait_budget: u32) -> (m: AudioMixer)
        ensures
            m@ == (ChannelMixerView {
                lines: MixerView { mic: Seq::empty(), speaker: Seq::empty() },
                wait_budget: wait_budget,
                waited: 0,
                next_sequence: 0,
            }),
    {
        AudioMixer {
            mic_buffer: Vec::new(),
            speaker_buffer: Vec::new(),
            wait_budget,
            waited: 0,
            next_sequence: 0,
        }
    }

    /// Appends samples to the microphone line.
    pub fn add_mic_samples(&mut self, samples: Vec<i32>)
        ensures
            final(self)@ == fed(old(self)@, samples@, Seq::empty()),
    {
        let mut samples = samples;
        self.mic_buffer.append(&mut samples);
        assert(self@.lines.speaker =~= old(self)@.lines.speaker + Seq::<i32>::empty());
    }

    /// Appends samples to the speaker line.
    pub fn add_speaker_samples(&mut self, samples: Vec<i32>)
        ensures
            final(self)@ == fed(old(self)@, Seq::empty(), samples@),
    {
        let mut samples = samples;
        self.speaker_buffer.append(&mut samples);
        assert(self@.lines.mic =~= old(self)@.lines.mic + Seq::<i32>::empty());
    }

    /// Gives the next chunk of the mixed stream, if there is one, stamped
    /// with `now_ms` and the next sequence number.
    ///
    /// Where both lines hold samples the chunk is their mean over the
    /// overlap, tagged `Both`, and what one line holds beyond the other
    /// stays. Where one line alone holds samples it waits, and once it
    /// has waited for the budget of mixes the chunk is all it holds,
    /// unmixed, tagged `MicOnly` or `SpeakerOnly`. Where neither holds
    /// any there is no chunk.
    pub fn mix(&mut self, now_ms: u64) -> (out: Option<MixedChunk>)
        ensures
            final(self)@ == mix_model(old(self)@, now_ms).state,
            match out {
                Some(chunk) => Some(chunk@) == mix_model(old(self)@, now_ms).emitted,
                None => mix_model(old(self)@, now_ms).emitted is None,
            },
    {
        let mic_len: usize = self.mic_buffer.len();
        let speaker_len: usize = self.speaker_buffer.len();
        let sequence: u64 = self.next_sequence;
        let next: u64 = if sequence < u64::MAX {
            sequence + 1
        } else {
            sequence
        };
        if mic_len > 0 && speaker_len > 0 {
            let samples = self.take_overlap();
            self.waited = 0;
            self.next_sequence = next;
            Some(MixedChunk { samples, sequence, timestamp_ms: now_ms, coverage: SourceCoverage::Both })
        } else if mic_len > 0 || speaker_len > 0 {
            if self.waited >= self.wait_budget {
                self.next_sequence = next;
                if mic_len > 0 {
                    let samples = self.take_mic();
                    assert(self@.lines.speaker =~= Seq::<i32>::empty());
                    Some(
                        MixedChunk {
                            samples,
                            sequence,
                            timestamp_ms: now_ms,
                            coverage: SourceCoverage::MicOnly,
                        },
                    )
                } else {
                    let samples = self.take_speaker();
                    assert(self@.lines.mic =~= Seq::<i32>::empty());
                    Some(
                        MixedChunk {
                            samples,
                            sequence,
                            timestamp_ms: now_ms,
                            coverage: SourceCoverage::SpeakerOnly,
                        },
                    )
                }
            } else {
                self.waited = self.waited + 1;
                None
            }
        } else {
            None
        }
    }

    /// Mixes the two lines over their overlap and takes the mixed samples
    /// out of both. What one line holds beyond the other stays.
    fn take_overlap(&mut self) -> (out: Vec<i32>)
        ensures
            out@ == mixed(old(self)@.lines.mic, old(self)@.lines.speaker),
            final(self)@.lines.mic == remainder(
                old(self)@.lines.mic,
                overlap(old(self)@.lines.mic, old(self)@.lines.speaker),
            ),
            final(self)@.lines.speaker == remainder(
                old(self)@.lines.speaker,
                overlap(old(self)@.lines.mic, old(self)@.lines.speaker),
            ),
            final(self)@.wait_budget == old(self)@.wait_budget,
            final(self)@.waited == old(self)@.waited,
            final(self)@.next_sequence == old(self)@.next_sequence,
    {
        let min_len: usize = if self.mic_buffer.len() < self.speaker_buffer.len() {
            self.mic_buffer.len()
        } else {
            self.speaker_buffer.len()
        };
        let mut out: Vec<i32> = Vec::new();
        let mut i: usize = 0;
        while i < min_len
            invariant
                0 <= i <= min_len,
                min_len <= self.mic_buffer@.len(),
                min_len <= self.speaker_buffer@.len(),
                *self == *old(self),
                out@.len() == i,
                forall|k: int|
                    0 <= k < i ==> out@[k] as int == mean_of(
                        self.mic_buffer@[k] as int,
                        self.speaker_buffer@[k] as int,
                    ),
            decreases min_len - i,
        {
            let m: i32 = mean_sample(self.mic_buffer[i], self.speaker_buffer[i]);
            out.push(m);
            i += 1;
        }
        let mic_rest = self.mic_buffer.split_off(min_len);
        let speaker_rest = self.speaker_buffer.split_off(min_len);
        self.mic_buffer = mic_rest;
        self.speaker_buffer = speaker_rest;
        proof {
            assert(out@ =~= mixed(old(self)@.lines.mic, old(self)@.lines.speaker));
        }
        out
    }

    /// The number of samples waiting on the microphone line and on the
    /// speaker line.
    pub fn buffer_size(&self) -> (sizes: (usize, usize))
        ensures
            sizes.0 == self@.lines.mic.len(),
            sizes.1 == self@.lines.speaker.len(),
    {
        (self.mic_buffer.len(), self.speaker_buffer.len())
    }

    /// Drops what both lines hold. The wait and the sequence number go
    /// on as they are.
    pub fn clear(&mut self)
        ensures
            final(self)@ == (ChannelMixerView {
                lines: MixerView { mic: Seq::empty(), speaker: Seq::empty() },
                wait_budget: old(self)@.wait_budget,
                waited: old(self)@.waited,
                next_sequence: old(self)@.next_sequence,
            }),
    {
        self.mic_buffer.clear();
        self.speaker_buffer.clear();
    }

    /// Takes everything the microphone line holds.
    fn take_mic(&mut self) -> (out: Vec<i32>)
        ensures
            out@ == old(self)@.lines.mic,
            final(self)@.lines.mic == Seq::<i32>::empty(),
            final(self)@.lines.speaker == old(self)@.lines.speaker,
            final(self)@.wait_budget == old(self)@.wait_budget,
            final(self)@.waited == old(self)@.waited,
            final(self)@.next_sequence == old(self)@.next_sequence,
    {
        let mut out: Vec<i32> = Vec::new();
        out.append(&mut self.mic_buffer);
        assert(out@ =~= old(self)@.lines.mic);
        out
    }

    /// Takes everything the speaker line holds.
    fn take_speaker(&mut self) -> (out: Vec<i32>)
        ensures
            out@ == old(self)@.lines.speaker,
            final(self)@.lines.speaker == Seq::<i32>::empty(),
            final(self)@.lines.mic == old(self)@.lines.mic,
            final(self)@.wait_budget == old(self)@.wait_budget,
            final(self)@.waited == old(self)@.waited,
            final(self)@.next_sequence == old(self)@.next_sequence,
    {
        let mut out: Vec<i32> = Vec::new();
        out.append(&mut self.speaker_buffer);
        assert(out@ =~= old(self)@.lines.speaker);
        out
    }
}

/// One thing done to a mixer.
pub ghost enum MixerOp {
    AddMic(Seq<i32>),
    AddSpeaker(Seq<i32>),
    /// A mix at a time.
    Mix(u64),
}

/// A mixer together with its history: all the samples each line was fed,
/// all the samples its mixes gave, in order, and whether any of its
/// chunks was of one line alone.
pub ghost struct MixerRun {
    pub state: ChannelMixerView,
    pub output: Seq<i32>,
    pub mic_fed: Seq<i32>,
    pub speaker_fed: Seq<i32>,
    pub lone: bool,
}

/// A run after one more operation, which does to the mixer what
/// `add_mic_samples`, `add_speaker_samples` and `mix` do.
pub open spec fn run_step(r: MixerRun, op: MixerOp) -> MixerRun {
    match op {
        MixerOp::AddMic(s) => MixerRun {
            state: fed(r.state, s, Seq::empty()),
            output: r.output,
            mic_fed: r.mic_fed + s,
            speaker_fed: r.speaker_fed,
            lone: r.lone,
        },
        MixerOp::AddSpeaker(s) => MixerRun {
            state: fed(r.state, Seq::empty(), s),
            output: r.output,
            mic_fed: r.mic_fed,
            speaker_fed: r.speaker_fed + s,
            lone: r.lone,
        },
        MixerOp::Mix(now_ms) => {
            let mix = mix_model(r.state, now_ms);
            MixerRun {
                state: mix.state,
                output: match mix.emitted {
                    Some(chunk) => r.output + chunk.samples,
                    None => r.output,
                },
                mic_fed: r.mic_fed,
                speaker_fed: r.speaker_fed,
                lone: r.lone || match mix.emitted {
                    Some(chunk) => chunk.coverage != SourceCoverage::Both,
                    None => false,
                },
            }
        },
    }
}

/// The run of a new mixer with a wait budget through a series of
/// operations.
pub open spec fn run(wait_budget: u32, ops: Seq<MixerOp>) -> MixerRun
    decreases ops.len(),
{
    if ops.len() == 0 {
        MixerRun {
            state: ChannelMixerView {
                lines: MixerView { mic: Seq::empty(), speaker: Seq::empty() },
                wait_budget: wait_budget,
                waited: 0,
                next_sequence: 0,
            },
            output: Seq::empty(),
            mic_fed: Seq::empty(),
            speaker_fed: Seq::empty(),
            lone: false,
        }
    } else {
        run_step(run(wait_budget, ops.drop_last()), ops.last())
    }
}

/// However the samples of the two lines are cut into chunks and however
/// the chunks and the mixes follow each other: as long as no line had to
/// pass alone, the mixed output is the mean of the two lines, sample by
/// sample. Output sample `i` is the mean of the `i`-th sample fed to the
/// microphone line and the `i`-th fed to the speaker line. What each
/// line holds is what it was fed beyond the output, and right after a
/// mix the output covers the whole overlap of the two lines.
pub proof fn lemma_mix_any_interleaving(wait_budget: u32, ops: Seq<MixerOp>)
    ensures
        run(wait_budget, ops).state.wait_budget == wait_budget,
        !run(wait_budget, ops).lone ==> {
            let r = run(wait_budget, ops);
            &&& r.output.len() <= overlap(r.mic_fed, r.speaker_fed)
            &&& forall|i: int|
                0 <= i < r.output.len() ==> r.output[i] as int == mean_of(
                    r.mic_fed[i] as int,
                    r.speaker_fed[i] as int,
                )
            &&& r.state.lines.mic == remainder(r.mic_fed, r.output.len())
            &&& r.state.lines.speaker == remainder(r.speaker_fed, r.output.len())
            &&& ops.len() > 0 && ops.last() is Mix ==> r.output == mixed(r.mic_fed, r.speaker_fed)
        },
    decreases ops.len(),
{
    if ops.len() == 0 {
        let r = run(wait_budget, ops);
        assert(r.state.lines.mic =~= remainder(r.mic_fed, 0));
        assert(r.state.lines.speaker =~= remainder(r.speaker_fed, 0));
    } else {
        let before = run(wait_budget, ops.drop_last());
        let after = run(wait_budget, ops);
        let done = before.output.len();
        lemma_mix_any_interleaving(wait_budget, ops.drop_last());
        if !after.lone {
            match ops.last() {
                MixerOp::AddMic(s) => {
                    assert(after.state.lines.mic =~= remainder(after.mic_fed, done));
                    assert(after.state.lines.speaker =~= remainder(after.speaker_fed, done));
                },
                MixerOp::AddSpeaker(s) => {
                    assert(after.state.lines.speaker =~= remainder(after.speaker_fed, done));
                    assert(after.state.lines.mic =~= remainder(after.mic_fed, done));
                },
                MixerOp::Mix(now_ms) => {
                    let n = overlap(before.state.lines.mic, before.state.lines.speaker);
                    lemma_mixed_values(before.state.lines.mic, before.state.lines.speaker);
                    if n > 0 {
                        assert(after.state.lines.mic =~= remainder(after.mic_fed, done + n));
                        assert(after.state.lines.speaker =~= remainder(after.speaker_fed, done + n));
                    }
                    assert forall|i: int| 0 <= i < after.output.len() implies after.output[i] as int
                        == mean_of(after.mic_fed[i] as int, after.speaker_fed[i] as int) by {
                        if i >= done {
                            assert(before.state.lines.mic[i - done] == before.mic_fed[i]);
                            assert(before.state.lines.speaker[i - done] == before.speaker_fed[i]);
                        }
                    }
                    lemma_mixed_values(after.mic_fed, after.speaker_fed);
                    assert(after.output =~= mixed(after.mic_fed, after.speaker_fed));
                },
            }
        }
    }
}

/// A new mixer lets no line pass alone before its wait budget is used
/// up: a run of no more operations than the budget holds no chunk of one
/// line alone, so all of its output is the mean of the two lines.
pub proof fn lemma_no_lone_line_within_budget(wait_budget: u32, ops: Seq<MixerOp>)
    requires
        ops.len() <= wait_budget,
    ensures
        !run(wait_budget, ops).lone,
        run(wait_budget, ops).state.waited <= ops.len(),
        run(wait_budget, ops).state.wait_budget == wait_budget,
    decreases ops.len(),
{
    if ops.len() > 0 {
        lemma_no_lone_line_within_budget(wait_budget, ops.drop_last());
    }
}

/// Each sample of a mix is the mean of the two samples at its place.
pub proof fn lemma_mixed_values(mic: Seq<i32>, speaker: Seq<i32>)
    ensures
        mixed(mic, speaker).len() == overlap(mic, speaker),
        forall|i: int|
            0 <= i < overlap(mic, speaker) ==> mixed(mic, speaker)[i] as int == mean_of(
                mic[i] as int,
                speaker[i] as int,
            ),
{
    assert forall|i: int| 0 <= i < overlap(mic, speaker) implies mixed(mic, speaker)[i] as int
        == mean_of(mic[i] as int, speaker[i] as int) by {
        lemma_mean_range(mic[i], speaker[i]);
    }
}

} // verus!
