//! The bounded, lossy queue that carries chunks of samples from a capture
//! callback to the consumer that mixes and records them.

use vstd::prelude::*;

verus! {

/// Capacity of a queue made with `FrameQueue::new`.
pub const DEFAULT_QUEUE_CAPACITY: usize = 1000;

/// Largest capacity a queue can be made with: the room for that many
/// chunks is set aside when the queue is made.
pub const MAX_QUEUE_CAPACITY: usize = 65536;

/// A contiguous block of mono samples produced by one capture callback,
/// tagged with its place in the source's stream and its capture time.
#[derive(Debug, Clone, PartialEq, Eq)]
pub struct SampleChunk {
    pub samples: Vec<i32>,
    pub sequence: u64,
    pub timestamp_ms: u64,
}

/// What a chunk holds, as plain values.
pub ghost struct ChunkView {
    pub samples: Seq<i32>,
    pub sequence: u64,
    pub timestamp_ms: u64,
}

impl View for SampleChunk {
    type V = ChunkView;

    open spec fn view(&self) -> ChunkView {
        ChunkView { samples: self.samples@, sequence: self.sequence, timestamp_ms: self.timestamp_ms }
    }
}

/// `crossbeam_channel::Sender`, the sending end of a channel. Nothing is
/// known of what is inside.
#[verifier::external_type_specification]
#[verifier::external_body]
#[verifier::reject_recursive_types(T)]
pub struct ExSender<T>(crossbeam_channel::Sender<T>);

/// `crossbeam_channel::Receiver`, the receiving end of a channel. What
/// the channel holds is spoken of through `channel_items`.
#[verifier::external_type_specification]
#[verifier::external_body]
#[verifier::reject_recursive_types(T)]
pub struct ExReceiver<T>(crossbeam_channel::Receiver<T>);

/// The messages waiting in the channel that `rx` reads, oldest first, each
/// as (sequence, timestamp, samples). The library keeps both ends of a
/// channel in one place and hands out neither, so what waits changes
/// only through the calls below.
pub uninterp spec fn channel_items(rx: crossbeam_channel::Receiver<(u64, u64, Vec<i32>)>) -> Seq<
    (u64, u64, Seq<i32>),
>;

/// The capacity that the channel of `rx` was made with.
pub uninterp spec fn channel_bound(rx: crossbeam_channel::Receiver<(u64, u64, Vec<i32>)>) -> nat;

/// Whether `tx` and `rx` are the two ends of one channel, as
/// `crossbeam_channel::bounded` hands them out together.
pub uninterp spec fn channel_joined(
    tx: crossbeam_channel::Sender<(u64, u64, Vec<i32>)>,
    rx: crossbeam_channel::Receiver<(u64, u64, Vec<i32>)>,
) -> bool;

/// `crossbeam_channel::bounded`: makes an empty channel that holds at most
/// `cap` messages and hands out its two ends.
#[verifier::external_body]
fn channel_bounded(cap: usize) -> (ch: (
    crossbeam_channel::Sender<(u64, u64, Vec<i32>)>,
    crossbeam_channel::Receiver<(u64, u64, Vec<i32>)>,
))
    requires
        0 < cap <= MAX_QUEUE_CAPACITY,
    ensures
        channel_joined(ch.0, ch.1),
        channel_items(ch.1) == Seq::<(u64, u64, Seq<i32>)>::empty(),
        channel_bound(ch.1) == cap as nat,
{
    crossbeam_channel::bounded(cap)
}

/// `Sender::try_send`: appends the message behind those waiting when the
/// channel holds fewer than its capacity, and otherwise drops it and
/// leaves the channel as it was. It never blocks. With both ends alive the
/// channel is not disconnected, so a full channel is the only refusal.
#[verifier::external_body]
fn channel_try_send(
    tx: &crossbeam_channel::Sender<(u64, u64, Vec<i32>)>,
    rx: &mut crossbeam_channel::Receiver<(u64, u64, Vec<i32>)>,
    item: (u64, u64, Vec<i32>),
) -> (sent: bool)
    requires
        channel_joined(*tx, *old(rx)),
    ensures
        channel_joined(*tx, *final(rx)),
        channel_bound(*final(rx)) == channel_bound(*old(rx)),
        sent == (channel_items(*old(rx)).len() < channel_bound(*old(rx))),
        sent ==> channel_items(*final(rx)) == channel_items(*old(rx)).push(
            (item.0, item.1, item.2@),
        ),
        !sent ==> channel_items(*final(rx)) == channel_items(*old(rx)),
{
    tx.try_send(item).is_ok()
}

/// `Receiver::try_recv`: takes the oldest waiting message out of the
/// channel, or returns nothing when none waits. It never blocks.
#[verifier::external_body]
fn channel_try_recv(
    tx: &crossbeam_channel::Sender<(u64, u64, Vec<i32>)>,
    rx: &mut crossbeam_channel::Receiver<(u64, u64, Vec<i32>)>,
) -> (got: Option<(u64, u64, Vec<i32>)>)
    requires
        channel_joined(*tx, *old(rx)),
    ensures
        channel_joined(*tx, *final(rx)),
        channel_bound(*final(rx)) == channel_bound(*old(rx)),
        got.is_some() == (channel_items(*old(rx)).len() > 0),
        match got {
            Some(item) => (item.0, item.1, item.2@) == channel_items(*old(rx))[0]
                && channel_items(*final(rx)) == channel_items(*old(rx)).drop_first(),
            None => channel_items(*final(rx)) == channel_items(*old(rx)),
        },
{
    rx.try_recv().ok()
}

/// The sequence number after `s`, which stops at the largest.
pub open spec fn following(s: u64) -> u64 {
    if s < u64::MAX {
        (s + 1) as u64
    } else {
        s
    }
}

/// The queue's contents after a push of `chunk`: the chunk goes behind
/// the others when there is room, and is dropped when there is none.
pub open spec fn pushed(items: Seq<ChunkView>, capacity: nat, chunk: ChunkView) -> Seq<ChunkView> {
    if items.len() < capacity {
        items.push(chunk)
    } else {
        items
    }
}

/// The queue's contents after one pop.
pub open spec fn popped(items: Seq<ChunkView>) -> Seq<ChunkView> {
    if items.len() > 0 {
        items.drop_first()
    } else {
        items
    }
}

/// The queue's contents after a push of each of `chunks`, in order.
pub open spec fn pushed_all(items: Seq<ChunkView>, capacity: nat, chunks: Seq<ChunkView>) -> Seq<
    ChunkView,
>
    decreases chunks.len(),
{
    if chunks.len() == 0 {
        items
    } else {
        pushed_all(pushed(items, capacity, chunks[0]), capacity, chunks.drop_first())
    }
}

/// The queue's contents after `n` pops.
pub open spec fn popped_n(items: Seq<ChunkView>, n: nat) -> Seq<ChunkView>
    decreases n,
{
    if n == 0 {
        items
    } else {
        popped_n(popped(items), (n - 1) as nat)
    }
}

spec fn chunk_of(item: (u64, u64, Seq<i32>)) -> ChunkView {
    ChunkView { samples: item.2, sequence: item.0, timestamp_ms: item.1 }
}

/// A bounded first-in, first-out queue of chunks. A push never blocks: a
/// chunk that arrives at a full queue is dropped and counted.
pub struct FrameQueue {
    tx: crossbeam_channel::Sender<(u64, u64, Vec<i32>)>,
    rx: crossbeam_channel::Receiver<(u64, u64, Vec<i32>)>,
    dropped: u64,
}

impl View for FrameQueue {
    type V = Seq<ChunkView>;

    /// The queued chunks, oldest first.
    closed spec fn view(&self) -> Seq<ChunkView> {
        channel_items(self.rx).map_values(|item: (u64, u64, Seq<i32>)| chunk_of(item))
    }
}

impl FrameQueue {
    /// The invariant of a queue: it never holds more than its capacity.
    pub closed spec fn wf(&self) -> bool {
        &&& channel_joined(self.tx, self.rx)
        &&& 0 < channel_bound(self.rx) <= MAX_QUEUE_CAPACITY
        &&& channel_items(self.rx).len() <= channel_bound(self.rx)
    }

    /// The number of chunks the queue can hold.
    pub closed spec fn capacity_spec(&self) -> nat {
        channel_bound(self.rx)
    }

    /// The number of chunks dropped so far, which stops counting at
    /// `u64::MAX`.
    pub closed spec fn dropped_spec(&self) -> nat {
        self.dropped as nat
    }

    /// A well-formed queue holds at most its capacity, which is positive.
    pub proof fn lemma_bounded(&self)
        requires
            self.wf(),
        ensures
            self@.len() <= self.capacity_spec(),
            0 < self.capacity_spec() <= MAX_QUEUE_CAPACITY,
    {
    }

    /// An empty queue of the default capacity.
    pub fn new() -> (q: FrameQueue)
        ensures
            q.wf(),
            q@ == Seq::<ChunkView>::empty(),
            q.capacity_spec() == DEFAULT_QUEUE_CAPACITY as nat,
            q.dropped_spec() == 0,
    {
        FrameQueue::allocate(DEFAULT_QUEUE_CAPACITY)
    }

    /// An empty queue that holds at most `capacity` chunks. The room for
    /// the chunks is set aside at once, so a queue holds at least one
    /// chunk and at most `MAX_QUEUE_CAPACITY`; for any other capacity
    /// there is no queue.
    pub fn with_capacity(capacity: usize) -> (made: Option<FrameQueue>)
        ensures
            made is Some <==> 0 < capacity <= MAX_QUEUE_CAPACITY,
            made matches Some(q) ==> q.wf() && q@ == Seq::<ChunkView>::empty() && q.capacity_spec()
                == capacity as nat && q.dropped_spec() == 0,
    {
        if capacity == 0 || capacity > MAX_QUEUE_CAPACITY {
            None
        } else {
            Some(FrameQueue::allocate(capacity))
        }
    }

    fn allocate(capacity: usize) -> (q: FrameQueue)
        requires
            0 < capacity <= MAX_QUEUE_CAPACITY,
        ensures
            q.wf(),
            q@ == Seq::<ChunkView>::empty(),
            q.capacity_spec() == capacity as nat,
            q.dropped_spec() == 0,
    {
        let (tx, rx) = channel_bounded(capacity);
        let q = FrameQueue { tx, rx, dropped: 0 };
        assert(q@ =~= Seq::<ChunkView>::empty());
        q
    }

    /// Appends a chunk without blocking. Returns `false`, drops the chunk
    /// and counts the drop when the queue is full.
    pub fn push(&mut self, chunk: SampleChunk) -> (accepted: bool)
        requires
            old(self).wf(),
        ensures
            final(self).wf(),
            final(self).capacity_spec() == old(self).capacity_spec(),
            accepted == (old(self)@.len() < old(self).capacity_spec()),
            final(self)@ == pushed(old(self)@, old(self).capacity_spec(), chunk@),
            final(self).dropped_spec() == if accepted {
                old(self).dropped_spec()
            } else if old(self).dropped_spec() < u64::MAX {
                old(self).dropped_spec() + 1
            } else {
                old(self).dropped_spec()
            },
    {
        let ghost before = channel_items(self.rx);
        let ghost view = chunk@;
        let SampleChunk { samples, sequence, timestamp_ms } = chunk;
        let accepted = channel_try_send(&self.tx, &mut self.rx, (sequence, timestamp_ms, samples));
        if !accepted {
            if self.dropped < u64::MAX {
                self.dropped = self.dropped + 1;
            }
        }
        proof {
            if accepted {
                assert(channel_items(self.rx) == before.push((sequence, timestamp_ms, view.samples)));
                assert(self@ =~= old(self)@.push(view));
            }
        }
        accepted
    }

    /// Takes the oldest chunk out of the queue without blocking, or
    /// returns `None` when the queue is empty.
    pub fn try_pop(&mut self) -> (got: Option<SampleChunk>)
        requires
            old(self).wf(),
        ensures
            final(self).wf(),
            final(self).capacity_spec() == old(self).capacity_spec(),
            final(self).dropped_spec() == old(self).dropped_spec(),
            got.is_some() == (old(self)@.len() > 0),
            got.is_some() ==> got.unwrap()@ == old(self)@[0],
            final(self)@ == popped(old(self)@),
    {
        match channel_try_recv(&self.tx, &mut self.rx) {
            Some((sequence, timestamp_ms, samples)) => {
                let chunk = SampleChunk { samples, sequence, timestamp_ms };
                proof {
                    assert(self@ =~= old(self)@.drop_first());
                }
                Some(chunk)
            },
            None => None,
        }
    }

    /// The number of chunks that were dropped because the queue was full.
    pub fn dropped(&self) -> (n: u64)
        ensures
            n as nat == self.dropped_spec(),
    {
        self.dropped
    }
}

/// Pushing chunks into a queue that has room for all of them appends them
/// in order.
pub proof fn lemma_pushed_all_fits(items: Seq<ChunkView>, capacity: nat, chunks: Seq<ChunkView>)
    requires
        items.len() + chunks.len() <= capacity,
    ensures
        pushed_all(items, capacity, chunks) == items + chunks,
    decreases chunks.len(),
{
    if chunks.len() == 0 {
        assert(items + chunks =~= items);
    } else {
        lemma_pushed_all_fits(items.push(chunks[0]), capacity, chunks.drop_first());
        assert(items.push(chunks[0]) + chunks.drop_first() =~= items + chunks);
    }
}

/// After `n` pops the first `n` chunks are gone and the rest is in place.
pub proof fn lemma_popped_n(items: Seq<ChunkView>, n: nat)
    requires
        n <= items.len(),
    ensures
        popped_n(items, n) == items.subrange(n as int, items.len() as int),
    decreases n,
{
    if n == 0 {
        assert(items.subrange(0, items.len() as int) =~= items);
    } else {
        lemma_popped_n(items.drop_first(), (n - 1) as nat);
        assert(items.drop_first().subrange(n - 1, items.len() - 1) =~= items.subrange(
            n as int,
            items.len() as int,
        ));
    }
}

/// First in, first out: when chunks are pushed into an empty queue that
/// has room for all of them, the pop that follows `k` earlier pops finds
/// the chunk pushed `k`-th at the head, unchanged.
pub proof fn lemma_fifo(capacity: nat, chunks: Seq<ChunkView>, k: nat)
    requires
        chunks.len() <= capacity,
        k < chunks.len(),
    ensures
        popped_n(pushed_all(Seq::empty(), capacity, chunks), k).len() == chunks.len() - k,
        popped_n(pushed_all(Seq::empty(), capacity, chunks), k)[0] == chunks[k as int],
{
    lemma_pushed_all_fits(Seq::empty(), capacity, chunks);
    assert(Seq::<ChunkView>::empty() + chunks =~= chunks);
    lemma_popped_n(chunks, k);
}

} // verus!
