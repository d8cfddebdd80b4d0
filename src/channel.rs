use vstd::prelude::*;
use std::collections::VecDeque;
use crate::chunk::chunk_views;
use crate::error::PipelineError;

verus! {

/// What a channel holds: the chunks sent and not yet received, oldest first,
/// the most it keeps, and whether it has been closed.
pub struct ChannelView {
    pub pending: Seq<Seq<i16>>,
    pub capacity: nat,
    pub closed: bool,
}

/// The channel after `send(c)`. A closed channel takes nothing; a full one
/// drops its oldest chunk to make room, so that the producer never waits.
pub open spec fn send_spec(v: ChannelView, c: Seq<i16>) -> ChannelView {
    if v.closed {
        v
    } else if v.pending.len() < v.capacity {
        ChannelView { pending: v.pending.push(c), ..v }
    } else {
        ChannelView { pending: v.pending.drop_first().push(c), ..v }
    }
}

/// The channel after one `receive`: the oldest chunk, if any, has left.
pub open spec fn receive_spec(v: ChannelView) -> ChannelView {
    if v.pending.len() > 0 {
        ChannelView { pending: v.pending.drop_first(), ..v }
    } else {
        v
    }
}

/// The channel after sending each of `cs` in turn.
pub open spec fn send_all(v: ChannelView, cs: Seq<Seq<i16>>) -> ChannelView
    decreases cs.len(),
{
    if cs.len() == 0 {
        v
    } else {
        send_spec(send_all(v, cs.drop_last()), cs.last())
    }
}

/// The chunks that `k` receives in turn hand out, in the order they come.
pub open spec fn receive_all(v: ChannelView, k: nat) -> Seq<Seq<i16>>
    decreases k,
{
    if k == 0 || v.pending.len() == 0 {
        Seq::empty()
    } else {
        seq![v.pending[0]] + receive_all(receive_spec(v), (k - 1) as nat)
    }
}

/// A single-producer, single-consumer queue of chunks that keeps their order.
///
/// It keeps at most `capacity` chunks: a send into a full channel drops the
/// oldest one. Receiving never waits, since nothing else can send while the
/// caller holds the channel: an empty open channel reports `Timeout`, an empty
/// closed one `ChannelClosed`.
pub struct SampleChannel {
    queue: VecDeque<Vec<i16>>,
    capacity: usize,
    closed: bool,
}

impl View for SampleChannel {
    type V = ChannelView;

    closed spec fn view(&self) -> ChannelView {
        ChannelView {
            pending: chunk_views(self.queue@),
            capacity: self.capacity as nat,
            closed: self.closed,
        }
    }
}

impl SampleChannel {
    /// An open, empty channel that keeps at most `capacity` chunks.
    pub fn new(capacity: usize) -> (r: SampleChannel)
        requires
            capacity > 0,
        ensures
            r@.pending == Seq::<Seq<i16>>::empty(),
            r@.capacity == capacity,
            !r@.closed,
    {
        let r = SampleChannel { queue: VecDeque::new(), capacity, closed: false };
        assert(r@.pending =~= Seq::<Seq<i16>>::empty());
        r
    }

    /// The number of chunks waiting to be received.
    pub fn len(&self) -> (r: usize)
        ensures
            r == self@.pending.len(),
    {
        self.queue.len()
    }

    /// Whether the channel has been closed.
    pub fn is_closed(&self) -> (r: bool)
        ensures
            r == self@.closed,
    {
        self.closed
    }

    /// Closes the channel: nothing more can be sent, and what is pending can
    /// still be received.
    pub fn close(&mut self)
        ensures
            final(self)@ == (ChannelView { closed: true, ..old(self)@ }),
    {
        self.closed = true;
    }

    /// Hands a chunk to the channel; fails only when it is closed.
    pub fn send(&mut self, chunk: Vec<i16>) -> (r: Result<(), PipelineError>)
        requires
            old(self)@.capacity > 0,
        ensures
            r is Ok <==> !old(self)@.closed,
            r is Err ==> r == Err::<(), PipelineError>(PipelineError::ChannelClosed),
            final(self)@ == send_spec(old(self)@, chunk@),
    {
        if self.closed {
            return Err(PipelineError::ChannelClosed);
        }
        let ghost before = self.queue@;
        if self.queue.len() >= self.capacity {
            let _oldest = self.queue.pop_front();
            proof {
                assert(chunk_views(self.queue@) =~= chunk_views(before).drop_first());
            }
        }
        let ghost mid = self.queue@;
        self.queue.push_back(chunk);
        assert(chunk_views(self.queue@) =~= chunk_views(mid).push(chunk@));
        Ok(())
    }

    /// Takes the oldest pending chunk.
    pub fn receive(&mut self) -> (r: Result<Vec<i16>, PipelineError>)
        ensures
            final(self)@ == receive_spec(old(self)@),
            old(self)@.pending.len() > 0 ==> r is Ok && r->Ok_0@ == old(self)@.pending[0],
            old(self)@.pending.len() == 0 && old(self)@.closed ==> r == Err::<Vec<i16>, PipelineError>(
                PipelineError::ChannelClosed,
            ),
            old(self)@.pending.len() == 0 && !old(self)@.closed ==> r == Err::<Vec<i16>, PipelineError>(
                PipelineError::Timeout,
            ),
    {
        let ghost before = self.queue@;
        match self.queue.pop_front() {
            Some(c) => {
                assert(chunk_views(self.queue@) =~= chunk_views(before).drop_first());
                Ok(c)
            },
            None => {
                if self.closed {
                    Err(PipelineError::ChannelClosed)
                } else {
                    Err(PipelineError::Timeout)
                }
            },
        }
    }
}

/// Receiving `k` times from a channel with at least `k` chunks pending hands
/// out its first `k` chunks in order.
pub proof fn lemma_receive_in_order(v: ChannelView, k: nat)
    requires
        k <= v.pending.len(),
    ensures
        receive_all(v, k) == v.pending.subrange(0, k as int),
    decreases k,
{
    if k > 0 {
        lemma_receive_in_order(receive_spec(v), (k - 1) as nat);
        assert(receive_all(v, k) =~= v.pending.subrange(0, k as int));
    } else {
        assert(receive_all(v, k) =~= v.pending.subrange(0, k as int));
    }
}

/// Sending chunks into an open channel with room for them all queues them
/// after what was already pending, in the order they were sent.
pub proof fn lemma_send_in_order(v: ChannelView, cs: Seq<Seq<i16>>)
    requires
        !v.closed,
        v.pending.len() + cs.len() <= v.capacity,
    ensures
        send_all(v, cs) == (ChannelView { pending: v.pending + cs, ..v }),
    decreases cs.len(),
{
    if cs.len() > 0 {
        lemma_send_in_order(v, cs.drop_last());
        assert(v.pending + cs.drop_last() + seq![cs.last()] =~= v.pending + cs);
        assert((v.pending + cs.drop_last()).push(cs.last()) =~= v.pending + cs);
    } else {
        assert(v.pending + cs =~= v.pending);
    }
}

/// Chunks sent into an open channel with room for them all are received in
/// exactly the order they were sent, after what was already pending, with
/// nothing lost, repeated or reordered.
pub proof fn lemma_fifo(v: ChannelView, cs: Seq<Seq<i16>>)
    requires
        !v.closed,
        v.pending.len() + cs.len() <= v.capacity,
    ensures
        receive_all(send_all(v, cs), v.pending.len() + cs.len()) == v.pending + cs,
{
    lemma_send_in_order(v, cs);
    let w = send_all(v, cs);
    lemma_receive_in_order(w, v.pending.len() + cs.len());
    assert(w.pending.subrange(0, w.pending.len() as int) =~= w.pending);
}

} // verus!
