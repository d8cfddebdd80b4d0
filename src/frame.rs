use vstd::prelude::*;
use crate::chunk::chunk_views;
use crate::error::PipelineError;

verus! {

/// A sample read as an unsigned 16-bit word (two's complement).
pub open spec fn sample_word(s: i16) -> int {
    if s < 0 {
        s + 0x1_0000
    } else {
        s as int
    }
}

/// Byte `k` (0 = low, 1 = high) of a sample in little-endian order.
pub open spec fn sample_byte(s: i16, k: int) -> u8 {
    if k == 0 {
        (sample_word(s) % 256) as u8
    } else {
        (sample_word(s) / 256) as u8
    }
}

/// The sample whose little-endian bytes are `lo`, `hi`.
pub open spec fn sample_from_bytes(lo: u8, hi: u8) -> i16 {
    let v = lo + 256 * hi;
    if v >= 0x8000 {
        (v - 0x1_0000) as i16
    } else {
        v as i16
    }
}

/// The wire form of a run of samples: two little-endian bytes each, no prefix.
pub open spec fn encode_spec(ss: Seq<i16>) -> Seq<u8> {
    Seq::new((2 * ss.len()) as nat, |k: int| sample_byte(ss[k / 2], k % 2))
}

/// The samples that a byte string stands for, two bytes each.
pub open spec fn decode_spec(bs: Seq<u8>) -> Seq<i16> {
    Seq::new(bs.len() / 2, |i: int| sample_from_bytes(bs[2 * i], bs[2 * i + 1]))
}

proof fn lemma_sample_bytes_inverse(s: i16)
    ensures
        sample_from_bytes(sample_byte(s, 0), sample_byte(s, 1)) == s,
{
}

/// Decoding the wire form of any run of samples gives the same samples back,
/// the extreme values included.
pub proof fn lemma_frame_round_trip(ss: Seq<i16>)
    ensures
        decode_spec(encode_spec(ss)) == ss,
{
    let bs = encode_spec(ss);
    assert forall|i: int| 0 <= i < ss.len() implies decode_spec(bs)[i] == ss[i] by {
        assert((2 * i) / 2 == i && (2 * i) % 2 == 0);
        assert((2 * i + 1) / 2 == i && (2 * i + 1) % 2 == 1);
        lemma_sample_bytes_inverse(ss[i]);
    }
    assert(decode_spec(bs) =~= ss);
}

/// Encoding the samples that an even-length byte string stands for gives the
/// bytes back.
pub proof fn lemma_bytes_round_trip(bs: Seq<u8>)
    requires
        bs.len() % 2 == 0,
    ensures
        encode_spec(decode_spec(bs)) == bs,
{
    let ss = decode_spec(bs);
    assert forall|k: int| 0 <= k < bs.len() implies encode_spec(ss)[k] == bs[k] by {
        let i = k / 2;
        assert(2 * i == k || 2 * i + 1 == k);
    }
    assert(encode_spec(ss) =~= bs);
}

/// Serialises a frame of samples to its fixed-length wire form.
pub fn encode_frame(samples: &[i16]) -> (r: Vec<u8>)
    requires
        samples@.len() <= usize::MAX / 2,
    ensures
        r@ == encode_spec(samples@),
{
    let mut out: Vec<u8> = Vec::with_capacity(2 * samples.len());
    let mut i: usize = 0;
    while i < samples.len()
        invariant
            i <= samples@.len(),
            samples@.len() <= usize::MAX / 2,
            out@.len() == 2 * i,
            forall|k: int| 0 <= k < 2 * i ==> out@[k] == sample_byte(samples@[k / 2], k % 2),
        decreases samples@.len() - i,
    {
        let s = samples[i];
        let u: u32 = if s < 0 {
            (s as i32 + 0x1_0000) as u32
        } else {
            s as u32
        };
        out.push((u % 256) as u8);
        out.push((u / 256) as u8);
        proof {
            assert((2 * i) / 2 == i as int && (2 * i) % 2 == 0);
            assert((2 * i + 1) / 2 == i as int && (2 * i + 1) % 2 == 1);
        }
        i = i + 1;
    }
    assert(out@ =~= encode_spec(samples@));
    out
}

/// Decodes the `n` samples whose wire form starts at byte `start`.
fn decode_range(bytes: &[u8], start: usize, n: usize) -> (r: Vec<i16>)
    requires
        start + 2 * n <= bytes@.len(),
    ensures
        r@ == decode_spec(bytes@.subrange(start as int, start + 2 * n)),
{
    let ghost part = bytes@.subrange(start as int, start + 2 * n);
    let len = bytes.len();
    let mut out: Vec<i16> = Vec::with_capacity(n);
    let mut i: usize = 0;
    while i < n
        invariant
            start + 2 * n <= bytes@.len(),
            len == bytes@.len(),
            part == bytes@.subrange(start as int, start + 2 * n),
            i <= n,
            out@.len() == i,
            forall|j: int| 0 <= j < i ==> out@[j] == sample_from_bytes(part[2 * j], part[2 * j + 1]),
        decreases n - i,
    {
        let lo = bytes[start + 2 * i];
        let hi = bytes[start + 2 * i + 1];
        let v: u32 = lo as u32 + 256 * hi as u32;
        let s: i16 = if v >= 0x8000 {
            (v as i32 - 0x1_0000) as i16
        } else {
            v as i16
        };
        out.push(s);
        i = i + 1;
    }
    assert(out@ =~= decode_spec(part));
    out
}

/// Reads a frame of `frame_samples` samples from its wire form; a byte string
/// of any other length is a serialisation error.
pub fn decode_frame(bytes: &[u8], frame_samples: usize) -> (r: Result<Vec<i16>, PipelineError>)
    ensures
        r is Ok <==> bytes@.len() == 2 * frame_samples,
        r is Err ==> r == Err::<Vec<i16>, PipelineError>(PipelineError::SerializationError),
        r matches Ok(v) ==> v@ == decode_spec(bytes@),
{
    if bytes.len() % 2 != 0 || bytes.len() / 2 != frame_samples {
        return Err(PipelineError::SerializationError);
    }
    let out = decode_range(bytes, 0, frame_samples);
    assert(bytes@.subrange(0, bytes@.len() as int) =~= bytes@);
    Ok(out)
}

/// What the transport writer does with one item from the aggregator.
pub enum Outbound {
    /// Write these bytes in full.
    Bytes(Vec<u8>),
    /// The message has ended: close the outbound half.
    EndOfStream,
}

/// The writer's step: a frame goes out in its wire form, and the empty
/// end-of-message chunk ends the stream.
pub fn outbound_for(chunk: &[i16]) -> (r: Outbound)
    requires
        chunk@.len() <= usize::MAX / 2,
    ensures
        chunk@.len() == 0 <==> r is EndOfStream,
        r matches Outbound::Bytes(b) ==> b@ == encode_spec(chunk@),
{
    if chunk.len() == 0 {
        Outbound::EndOfStream
    } else {
        Outbound::Bytes(encode_frame(chunk))
    }
}

/// The wire form of a run of frames, one after the other.
pub open spec fn frames_bytes(fs: Seq<Seq<i16>>) -> Seq<u8>
    decreases fs.len(),
{
    if fs.len() == 0 {
        Seq::empty()
    } else {
        frames_bytes(fs.drop_last()) + encode_spec(fs.last())
    }
}

/// What an assembler holds: the agreed frame size in samples and the bytes
/// received that do not yet make a whole frame.
pub struct AssemblerView {
    pub frame_samples: nat,
    pub buffered: Seq<u8>,
}

/// The inbound half of the transport: bytes arrive in pieces of any size and
/// leave as whole frames of the agreed size.
pub struct FrameAssembler {
    frame_samples: usize,
    buffered: Vec<u8>,
}

impl View for FrameAssembler {
    type V = AssemblerView;

    closed spec fn view(&self) -> AssemblerView {
        AssemblerView { frame_samples: self.frame_samples as nat, buffered: self.buffered@ }
    }
}

impl FrameAssembler {
    /// An assembler for frames of `frame_samples` samples, with nothing received.
    pub fn new(frame_samples: usize) -> (r: FrameAssembler)
        requires
            0 < frame_samples <= usize::MAX / 2,
        ensures
            r@.frame_samples == frame_samples,
            r@.buffered == Seq::<u8>::empty(),
    {
        FrameAssembler { frame_samples, buffered: Vec::new() }
    }

    /// The bytes received that do not yet make a whole frame.
    pub fn pending_bytes(&self) -> (r: usize)
        ensures
            r == self@.buffered.len(),
    {
        self.buffered.len()
    }

    /// Takes the next piece of the byte stream and returns every frame that is
    /// now complete, oldest first; the rest stays buffered.
    pub fn feed(&mut self, bytes: &[u8]) -> (r: Vec<Vec<i16>>)
        requires
            0 < old(self)@.frame_samples <= usize::MAX / 2,
            old(self)@.buffered.len() + bytes@.len() <= usize::MAX,
        ensures
            final(self)@.frame_samples == old(self)@.frame_samples,
            forall|i: int| 0 <= i < r@.len() ==> r@[i]@.len() == old(self)@.frame_samples,
            frames_bytes(chunk_views(r@)) + final(self)@.buffered == old(self)@.buffered + bytes@,
            final(self)@.buffered.len() < 2 * old(self)@.frame_samples,
    {
        let mut i: usize = 0;
        while i < bytes.len()
            invariant
                i <= bytes@.len(),
                self.buffered@ == old(self).buffered@ + bytes@.subrange(0, i as int),
                self.frame_samples == old(self).frame_samples,
            decreases bytes@.len() - i,
        {
            self.buffered.push(bytes[i]);
            i = i + 1;
            assert(bytes@.subrange(0, i as int) =~= bytes@.subrange(0, i - 1).push(bytes@[i - 1]));
        }
        assert(bytes@.subrange(0, bytes@.len() as int) =~= bytes@);
        let mut all: Vec<u8> = Vec::new();
        core::mem::swap(&mut all, &mut self.buffered);
        let n = self.frame_samples;
        let step: usize = 2 * n;
        let mut out: Vec<Vec<i16>> = Vec::new();
        let mut pos: usize = 0;
        while all.len() - pos >= step
            invariant
                all@ == old(self).buffered@ + bytes@,
                step == 2 * n,
                0 < n <= usize::MAX / 2,
                n == old(self)@.frame_samples,
                pos <= all@.len(),
                frames_bytes(chunk_views(out@)) == all@.subrange(0, pos as int),
                forall|j: int| 0 <= j < out@.len() ==> out@[j]@.len() == n,
            decreases all@.len() - pos,
        {
            let frame = decode_range(all.as_slice(), pos, n);
            proof {
                let part = all@.subrange(pos as int, pos + step);
                lemma_bytes_round_trip(part);
                let views = chunk_views(out@);
                assert(chunk_views(out@.push(frame)) =~= views.push(frame@));
                assert(views.push(frame@).drop_last() =~= views);
                assert(all@.subrange(0, pos + step) =~= all@.subrange(0, pos as int) + part);
            }
            out.push(frame);
            pos = pos + step;
        }
        let mut rest: Vec<u8> = Vec::new();
        let mut k: usize = pos;
        while k < all.len()
            invariant
                pos <= k <= all@.len(),
                rest@ == all@.subrange(pos as int, k as int),
            decreases all@.len() - k,
        {
            rest.push(all[k]);
            k = k + 1;
            assert(all@.subrange(pos as int, k as int) =~= all@.subrange(pos as int, k - 1).push(all@[k - 1]));
        }
        self.buffered = rest;
        assert(all@ =~= all@.subrange(0, pos as int) + all@.subrange(pos as int, all@.len() as int));
        out
    }

    /// The connection has closed: that is clean only on a frame boundary, and a
    /// transport error when part of a frame was received.
    pub fn finish(&self) -> (r: Result<(), PipelineError>)
        ensures
            r is Ok <==> self@.buffered.len() == 0,
            r is Err ==> r == Err::<(), PipelineError>(PipelineError::TransportError),
    {
        if self.buffered.len() == 0 {
            Ok(())
        } else {
            Err(PipelineError::TransportError)
        }
    }
}

} // verus!
