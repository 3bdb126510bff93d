//! One timeline out of two lines that arrive at their own pace. The
//! mixer never waits for a line: it takes what the queues hold, mixes as
//! far as both lines reach, and lets a line through alone once the other
//! has stayed silent for longer than a budget of ticks.

use vstd::prelude::*;
use crate::dual_recorder::{mixed, overlap, remainder, AudioMixer, MixerView};
use crate::frame_queue::{following, ChunkView, FrameQueue};

verus! {

/// Which lines the samples of a mixed chunk came from.
#[derive(Debug, Clone, Copy, PartialEq, Eq, Structural)]
pub enum SourceCoverage {
    /// The microphone line alone, unmixed.
    MicOnly,
    /// The speaker line alone, unmixed.
    SpeakerOnly,
    /// The mean of the two lines.
    Both,
    /// No line. The mixer gives no such chunk: a tick without data gives
    /// none at all.
    Neither,
}

/// A chunk of the mixed timeline.
#[derive(Debug, Clone, PartialEq, Eq)]
pub struct MixedChunk {
    pub samples: Vec<i32>,
    pub sequence: u64,
    pub timestamp_ms: u64,
    pub coverage: SourceCoverage,
}

/// What a mixed chunk holds, as plain values.
pub ghost struct MixedView {
    pub samples: Seq<i32>,
    pub sequence: u64,
    pub timestamp_ms: u64,
    pub coverage: SourceCoverage,
}

impl View for MixedChunk {
    type V = MixedView;

    open spec fn view(&self) -> MixedView {
        MixedView {
            samples: self.samples@,
            sequence: self.sequence,
            timestamp_ms: self.timestamp_ms,
            coverage: self.coverage,
        }
    }
}

/// The samples of a series of chunks, one chunk after the other.
pub open spec fn flattened(chunks: Seq<ChunkView>) -> Seq<i32>
    decreases chunks.len(),
{
    if chunks.len() == 0 {
        Seq::empty()
    } else {
        chunks[0].samples + flattened(chunks.drop_first())
    }
}

/// What a channel mixer holds: the unmixed samples of each line, the
/// number of ticks a lone line waits for the other, the number of ticks
/// it has waited, and the sequence number of the next chunk.
pub ghost struct ChannelMixerView {
    pub lines: MixerView,
    pub wait_budget: u32,
    pub waited: u32,
    pub next_sequence: u64,
}

/// A mixer after a tick, and the chunk the tick gave, if any.
pub ghost struct TickResult {
    pub state: ChannelMixerView,
    pub emitted: Option<MixedView>,
}

/// What a mix does with the samples the lines hold.
///
/// Where both lines hold samples, their overlap is mixed and leaves both
/// lines, and the wait is over. Where only one line holds samples, it
/// waits one mix more, or, with the budget used up, leaves unmixed and
/// whole. Where neither holds any, nothing happens.
pub open spec fn mix_model(pre: ChannelMixerView, now_ms: u64) -> TickResult {
    let mic = pre.lines.mic;
    let speaker = pre.lines.speaker;
    let n = overlap(mic, speaker);
    if n > 0 {
        TickResult {
            state: ChannelMixerView {
                lines: MixerView { mic: remainder(mic, n), speaker: remainder(speaker, n) },
                wait_budget: pre.wait_budget,
                waited: 0,
                next_sequence: following(pre.next_sequence),
            },
            emitted: Some(
                MixedView {
                    samples: mixed(mic, speaker),
                    sequence: pre.next_sequence,
                    timestamp_ms: now_ms,
                    coverage: SourceCoverage::Both,
                },
            ),
        }
    } else if mic.len() > 0 || speaker.len() > 0 {
        if pre.waited >= pre.wait_budget {
            TickResult {
                state: ChannelMixerView {
                    lines: MixerView { mic: Seq::empty(), speaker: Seq::empty() },
                    wait_budget: pre.wait_budget,
                    waited: pre.waited,
                    next_sequence: following(pre.next_sequence),
                },
                emitted: Some(
                    MixedView {
                        samples: if mic.len() > 0 {
                            mic
                        } else {
                            speaker
                        },
                        sequence: pre.next_sequence,
                        timestamp_ms: now_ms,
                        coverage: if mic.len() > 0 {
                            SourceCoverage::MicOnly
                        } else {
                            SourceCoverage::SpeakerOnly
                        },
                    },
                ),
            }
        } else {
            TickResult {
                state: ChannelMixerView {
                    lines: MixerView { mic: mic, speaker: speaker },
                    wait_budget: pre.wait_budget,
                    waited: (pre.waited + 1) as u32,
                    next_sequence: pre.next_sequence,
                },
                emitted: None,
            }
        }
    } else {
        TickResult {
            state: ChannelMixerView {
                lines: MixerView { mic: mic, speaker: speaker },
                wait_budget: pre.wait_budget,
                waited: pre.waited,
                next_sequence: pre.next_sequence,
            },
            emitted: None,
        }
    }
}

/// A mixer whose lines have taken the samples that arrived.
pub open spec fn fed(pre: ChannelMixerView, mic_in: Seq<i32>, speaker_in: Seq<i32>) -> ChannelMixerView {
    ChannelMixerView {
        lines: MixerView { mic: pre.lines.mic + mic_in, speaker: pre.lines.speaker + speaker_in },
        wait_budget: pre.wait_budget,
        waited: pre.waited,
        next_sequence: pre.next_sequence,
    }
}

/// What a tick does, given the samples that arrived on each line since
/// the last tick: the lines take them, and then the mixer mixes.
pub open spec fn tick_model(pre: ChannelMixerView, mic_in: Seq<i32>, speaker_in: Seq<i32>, now_ms: u64) -> TickResult {
    mix_model(fed(pre, mic_in, speaker_in), now_ms)
}

/// The number of mixes that a lone line still has to wait.
pub open spec fn wait_left(mixer: ChannelMixerView) -> nat {
    if mixer.waited >= mixer.wait_budget {
        0
    } else {
        (mixer.wait_budget - mixer.waited) as nat
    }
}

/// Takes every chunk out of a queue and returns their samples in order.
pub fn drain_queue(queue: &mut FrameQueue) -> (samples: Vec<i32>)
    requires
        old(queue).wf(),
    ensures
        final(queue).wf(),
        final(queue)@ == Seq::<ChunkView>::empty(),
        final(queue).capacity_spec() == old(queue).capacity_spec(),
        final(queue).dropped_spec() == old(queue).dropped_spec(),
        samples@ == flattened(old(queue)@),
{
    let mut samples: Vec<i32> = Vec::new();
    proof {
        assert(samples@ + flattened(queue@) =~= flattened(queue@));
    }
    loop
        invariant_except_break
            queue.wf(),
            queue.capacity_spec() == old(queue).capacity_spec(),
            queue.dropped_spec() == old(queue).dropped_spec(),
            samples@ + flattened(queue@) == flattened(old(queue)@),
        ensures
            queue.wf(),
            queue@ == Seq::<ChunkView>::empty(),
            queue.capacity_spec() == old(queue).capacity_spec(),
            queue.dropped_spec() == old(queue).dropped_spec(),
            samples@ == flattened(old(queue)@),
        decreases queue@.len(),
    {
        let ghost before = samples@;
        let ghost waiting = queue@;
        match queue.try_pop() {
            Some(chunk) => {
                let mut part = chunk.samples;
                samples.append(&mut part);
                proof {
                    assert((before + waiting[0].samples) + flattened(waiting.drop_first()) =~= before + (
                    waiting[0].samples + flattened(waiting.drop_first())));
                }
            },
            None => {
                proof {
                    assert(queue@ =~= Seq::<ChunkView>::empty());
                    assert(samples@ + flattened(queue@) =~= samples@);
                }
                break ;
            },
        }
    }
    samples
}

/// Mixes the chunks of two queues into one stream of chunks: an
/// `AudioMixer` that is fed from the queues.
pub struct ChannelMixer {
    mixer: AudioMixer,
}

impl View for ChannelMixer {
    type V = ChannelMixerView;

    closed spec fn view(&self) -> ChannelMixerView {
        self.mixer@
    }
}

impl ChannelMixer {
    /// A mixer that holds nothing and lets a lone line wait `wait_budget`
    /// ticks for the other.
    pub fn new(wait_budget: u32) -> (m: ChannelMixer)
        ensures
            m@ == (ChannelMixerView {
                lines: MixerView { mic: Seq::empty(), speaker: Seq::empty() },
                wait_budget: wait_budget,
                waited: 0,
                next_sequence: 0,
            }),
    {
        ChannelMixer { mixer: AudioMixer::with_wait_budget(wait_budget) }
    }

    /// One tick: empties both queues into the lines and gives the next
    /// chunk of the mixed stream, if there is one. Never blocks.
    pub fn tick(&mut self, mic: &mut FrameQueue, speaker: &mut FrameQueue, now_ms: u64) -> (out: Option<
        MixedChunk,
    >)
        requires
            old(mic).wf(),
            old(speaker).wf(),
        ensures
            final(mic).wf(),
            final(speaker).wf(),
            final(mic)@ == Seq::<ChunkView>::empty(),
            final(speaker)@ == Seq::<ChunkView>::empty(),
            final(mic).capacity_spec() == old(mic).capacity_spec(),
            final(speaker).capacity_spec() == old(speaker).capacity_spec(),
            final(mic).dropped_spec() == old(mic).dropped_spec(),
            final(speaker).dropped_spec() == old(speaker).dropped_spec(),
            final(self)@ == tick_model(
                old(self)@,
                flattened(old(mic)@),
                flattened(old(speaker)@),
                now_ms,
            ).state,
            match out {
                Some(chunk) => Some(chunk@) == tick_model(
                    old(self)@,
                    flattened(old(mic)@),
                    flattened(old(speaker)@),
                    now_ms,
                ).emitted,
                None => tick_model(
                    old(self)@,
                    flattened(old(mic)@),
                    flattened(old(speaker)@),
                    now_ms,
                ).emitted is None,
            },
    {
        let mic_in = drain_queue(mic);
        let speaker_in = drain_queue(speaker);
        self.feed(mic_in, speaker_in, now_ms)
    }

    /// One tick on samples that are already out of their queues.
    pub fn feed(&mut self, mic_in: Vec<i32>, speaker_in: Vec<i32>, now_ms: u64) -> (out: Option<MixedChunk>)
        ensures
            final(self)@ == tick_model(old(self)@, mic_in@, speaker_in@, now_ms).state,
            match out {
                Some(chunk) => Some(chunk@) == tick_model(old(self)@, mic_in@, speaker_in@, now_ms).emitted,
                None => tick_model(old(self)@, mic_in@, speaker_in@, now_ms).emitted is None,
            },
    {
        self.mixer.add_mic_samples(mic_in);
        self.mixer.add_speaker_samples(speaker_in);
        self.mixer.mix(now_ms)
    }

    /// The number of samples waiting on the microphone line and on the
    /// speaker line.
    pub fn pending(&self) -> (sizes: (usize, usize))
        ensures
            sizes.0 == self@.lines.mic.len(),
            sizes.1 == self@.lines.speaker.len(),
    {
        self.mixer.buffer_size()
    }
}

/// A chunk that a tick gives holds samples and names the lines they
/// came from. A chunk of both lines holds their overlap, and a chunk of
/// one line holds all that line held, the other line being empty.
pub proof fn lemma_emitted_chunk(pre: ChannelMixerView, mic_in: Seq<i32>, speaker_in: Seq<i32>, now_ms: u64)
    ensures
        match tick_model(pre, mic_in, speaker_in, now_ms).emitted {
            Some(chunk) => chunk.samples.len() > 0 && match chunk.coverage {
                SourceCoverage::Both => chunk.samples == mixed(
                    pre.lines.mic + mic_in,
                    pre.lines.speaker + speaker_in,
                ),
                SourceCoverage::MicOnly => chunk.samples == pre.lines.mic + mic_in && (pre.lines.speaker
                    + speaker_in).len() == 0,
                SourceCoverage::SpeakerOnly => chunk.samples == pre.lines.speaker + speaker_in && (
                pre.lines.mic + mic_in).len() == 0,
                SourceCoverage::Neither => false,
            },
            None => true,
        },
{
}

/// All the samples of a series of rounds, one round after the other.
pub open spec fn joined(rounds: Seq<Seq<i32>>) -> Seq<i32>
    decreases rounds.len(),
{
    if rounds.len() == 0 {
        Seq::empty()
    } else {
        rounds[0] + joined(rounds.drop_first())
    }
}

/// What a series of ticks gives when only the microphone line is fed:
/// tick `j` gets the samples `rounds[j]` at time `times[j]`, and the
/// speaker line gets nothing.
pub open spec fn mic_only_run(pre: ChannelMixerView, rounds: Seq<Seq<i32>>, times: Seq<u64>) -> Seq<
    Option<MixedView>,
>
    decreases rounds.len(),
{
    if rounds.len() == 0 || times.len() != rounds.len() {
        Seq::empty()
    } else {
        let t = tick_model(pre, rounds[0], Seq::empty(), times[0]);
        seq![t.emitted] + mic_only_run(t.state, rounds.drop_first(), times.drop_first())
    }
}

/// A speaker line that never gets data does not hold the microphone
/// back for long. Take a mixer whose speaker line is empty and whose
/// microphone line holds samples by the first tick. Then the ticks that
/// use up what is left of the wait budget give nothing, and the tick
/// after them gives every sample the microphone line was fed, in order
/// and unmixed, marked `MicOnly`.
pub proof fn lemma_single_source_fallback(pre: ChannelMixerView, rounds: Seq<Seq<i32>>, times: Seq<u64>)
    requires
        pre.lines.speaker.len() == 0,
        rounds.len() == wait_left(pre) + 1,
        times.len() == rounds.len(),
        (pre.lines.mic + rounds[0]).len() > 0,
    ensures
        mic_only_run(pre, rounds, times).len() == rounds.len(),
        forall|j: int| 0 <= j < rounds.len() - 1 ==> mic_only_run(pre, rounds, times)[j] is None,
        mic_only_run(pre, rounds, times).last() == Some(
            MixedView {
                samples: pre.lines.mic + joined(rounds),
                sequence: pre.next_sequence,
                timestamp_ms: times.last(),
                coverage: SourceCoverage::MicOnly,
            },
        ),
    decreases rounds.len(),
{
    let mic = pre.lines.mic + rounds[0];
    let speaker = pre.lines.speaker + Seq::<i32>::empty();
    assert(speaker.len() == 0);
    let t = tick_model(pre, rounds[0], Seq::empty(), times[0]);
    let rest = mic_only_run(t.state, rounds.drop_first(), times.drop_first());
    if pre.waited >= pre.wait_budget {
        assert(rounds.drop_first().len() == 0);
        assert(joined(rounds.drop_first()) =~= Seq::<i32>::empty());
        assert(pre.lines.mic + joined(rounds) =~= mic);
        assert(mic_only_run(pre, rounds, times) =~= seq![t.emitted]);
    } else {
        assert(t.state.lines.mic == mic);
        assert(t.state.lines.speaker.len() == 0);
        assert((t.state.lines.mic + rounds.drop_first()[0]).len() > 0);
        lemma_single_source_fallback(t.state, rounds.drop_first(), times.drop_first());
        assert(mic + joined(rounds.drop_first()) =~= pre.lines.mic + joined(rounds));
        assert(times.drop_first().last() == times.last());
        let all = mic_only_run(pre, rounds, times);
        assert(all =~= seq![t.emitted] + rest);
        assert forall|j: int| 0 <= j < rounds.len() - 1 implies all[j] is None by {
            if j > 0 {
                assert(all[j] == rest[j - 1]);
            }
        }
        assert(all.last() == rest.last());
    }
}

} // verus!
