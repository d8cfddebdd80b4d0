use vstd::prelude::*;
use crate::chunk::{chunk_views, concat, copy_range};

verus! {

/// What an aggregator holds: the frame size in samples and the samples
/// received that have not yet left in a frame.
pub struct AggregatorView {
    pub frame_samples: nat,
    pub pending: Seq<i16>,
}

/// Gathers captured chunks of any length into frames of a fixed number of
/// samples for the transport writer.
///
/// A frame leaves only while more than a frame's worth of samples is held, so
/// between pushes at least one sample and at most one frame stays pending. The
/// empty end-of-message chunk flushes no partial frame: the pending samples are
/// dropped and the empty chunk itself is passed on, so that the writer can end
/// the stream.
pub struct ChunkAggregator {
    frame_samples: usize,
    pending: Vec<i16>,
}

impl View for ChunkAggregator {
    type V = AggregatorView;

    closed spec fn view(&self) -> AggregatorView {
        AggregatorView { frame_samples: self.frame_samples as nat, pending: self.pending@ }
    }
}

impl ChunkAggregator {
    /// An aggregator for frames of `frame_samples` samples, holding nothing.
    pub fn new(frame_samples: usize) -> (r: ChunkAggregator)
        requires
            frame_samples > 0,
        ensures
            r@.frame_samples == frame_samples,
            r@.pending == Seq::<i16>::empty(),
    {
        ChunkAggregator { frame_samples, pending: Vec::new() }
    }

    /// The number of samples held back for the next frame.
    pub fn pending_samples(&self) -> (r: usize)
        ensures
            r == self@.pending.len(),
    {
        self.pending.len()
    }

    /// Takes one captured chunk and returns what is to be written, oldest
    /// first: the frames that are now complete, or, for the empty
    /// end-of-message chunk, that empty chunk alone.
    pub fn push(&mut self, chunk: &[i16]) -> (r: Vec<Vec<i16>>)
        requires
            old(self)@.frame_samples > 0,
            old(self)@.pending.len() + chunk@.len() <= usize::MAX,
        ensures
            final(self)@.frame_samples == old(self)@.frame_samples,
            chunk@.len() == 0 ==> chunk_views(r@) == seq![Seq::<i16>::empty()]
                && final(self)@.pending == Seq::<i16>::empty(),
            chunk@.len() > 0 ==> {
                &&& forall|i: int| 0 <= i < r@.len() ==> r@[i]@.len() == old(self)@.frame_samples
                &&& concat(chunk_views(r@)) + final(self)@.pending == old(self)@.pending + chunk@
                &&& 0 < final(self)@.pending.len() <= old(self)@.frame_samples
            },
    {
        if chunk.len() == 0 {
            self.pending = Vec::new();
            let mut out: Vec<Vec<i16>> = Vec::new();
            out.push(Vec::new());
            assert(chunk_views(out@) =~= seq![Seq::<i16>::empty()]);
            return out;
        }
        let mut i: usize = 0;
        while i < chunk.len()
            invariant
                i <= chunk@.len(),
                self.pending@ == old(self).pending@ + chunk@.subrange(0, i as int),
                self.frame_samples == old(self).frame_samples,
            decreases chunk@.len() - i,
        {
            self.pending.push(chunk[i]);
            i = i + 1;
            assert(chunk@.subrange(0, i as int) =~= chunk@.subrange(0, i - 1).push(chunk@[i - 1]));
        }
        assert(chunk@.subrange(0, chunk@.len() as int) =~= chunk@);
        let mut all: Vec<i16> = Vec::new();
        core::mem::swap(&mut all, &mut self.pending);
        let n = self.frame_samples;
        let mut out: Vec<Vec<i16>> = Vec::new();
        let mut pos: usize = 0;
        while all.len() - pos > n
            invariant
                all@ == old(self).pending@ + chunk@,
                all@.len() > 0,
                n == old(self)@.frame_samples,
                n > 0,
                pos < all@.len(),
                concat(chunk_views(out@)) == all@.subrange(0, pos as int),
                forall|j: int| 0 <= j < out@.len() ==> out@[j]@.len() == n,
            decreases all@.len() - pos,
        {
            let frame = copy_range(&all, pos, pos + n);
            proof {
                let views = chunk_views(out@);
                assert(chunk_views(out@.push(frame)) =~= views.push(frame@));
                assert(views.push(frame@).drop_last() =~= views);
                assert(all@.subrange(0, pos + n) =~= all@.subrange(0, pos as int) + frame@);
            }
            out.push(frame);
            pos = pos + n;
        }
        self.pending = copy_range(&all, pos, all.len());
        assert(all@ =~= all@.subrange(0, pos as int) + all@.subrange(pos as int, all@.len() as int));
        out
    }
}

} // verus!
