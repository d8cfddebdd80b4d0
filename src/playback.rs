use vstd::prelude::*;
use std::sync::mpsc::Receiver;
use crate::channel::{receive_spec, send_spec, ChannelView, SampleChannel};
use crate::error::PipelineError;

verus! {

/// Declares std's `mpsc::Receiver`, held opaque: the player only waits on it
/// through `receive_within`.
#[verifier::external_type_specification]
#[verifier::external_body]
#[verifier::reject_recursive_types(T)]
pub struct ExReceiver<T>(std::sync::mpsc::Receiver<T>);

/// How long playback waits for the next chunk before it ends the stream.
pub const RECEIVE_TIMEOUT_SECS: u64 = 10;

/// Where the playback side stands between two pulls of the audio subsystem.
#[derive(Debug, Clone, Copy, PartialEq, Eq, Structural)]
pub enum PlaybackState {
    /// No chunk is being played; the next pull waits for one.
    AwaitingChunk,
    /// A chunk was handed out; the next pull discards it.
    PlayingChunk,
    /// The stream has ended, for good.
    Finished,
}

/// What waiting for the next chunk came to.
pub enum Received {
    /// A chunk arrived (the empty chunk marks the end of a message).
    Chunk(Vec<i16>),
    /// Nothing arrived in time.
    Timeout,
    /// The sending side has gone away.
    Closed,
}

/// The state that a pull reaches from `s` when waiting gave `ev`: only a
/// non-empty chunk keeps the stream playing, and an ended stream stays ended.
pub open spec fn pull_state(s: PlaybackState, ev: Received) -> PlaybackState {
    if s == PlaybackState::Finished {
        PlaybackState::Finished
    } else {
        match ev {
            Received::Chunk(c) => if c@.len() > 0 {
                PlaybackState::PlayingChunk
            } else {
                PlaybackState::Finished
            },
            _ => PlaybackState::Finished,
        }
    }
}

/// The state that a pull from the channel `v` reaches from `s`.
pub open spec fn channel_pull_state(s: PlaybackState, v: ChannelView) -> PlaybackState {
    if s == PlaybackState::Finished {
        PlaybackState::Finished
    } else if v.pending.len() > 0 && v.pending[0].len() > 0 {
        PlaybackState::PlayingChunk
    } else {
        PlaybackState::Finished
    }
}

/// The short silent buffer handed out with "stop playing".
pub open spec fn silence() -> Seq<i16> {
    seq![0i16]
}

/// Relies on std's `Receiver::recv_timeout`: waits at most `secs` seconds for
/// the next value and tells a timeout from a sender that has gone away.
#[verifier::external_body]
fn receive_within(rx: &Receiver<Vec<i16>>, secs: u64) -> (r: Received) {
    match rx.recv_timeout(std::time::Duration::from_secs(secs)) {
        Ok(c) => Received::Chunk(c),
        Err(std::sync::mpsc::RecvTimeoutError::Timeout) => Received::Timeout,
        Err(std::sync::mpsc::RecvTimeoutError::Disconnected) => Received::Closed,
    }
}

/// What a player is: the stage it stands at and its fixed sample rate.
pub struct PlayerView {
    pub state: PlaybackState,
    pub sample_rate: u32,
}

/// The playback side, pulled by the audio subsystem for mono samples.
pub struct VoicePlayer {
    sample_receiver: Receiver<Vec<i16>>,
    sample_rate: u32,
    state: PlaybackState,
}

impl View for VoicePlayer {
    type V = PlayerView;

    closed spec fn view(&self) -> PlayerView {
        PlayerView { state: self.state, sample_rate: self.sample_rate }
    }
}

impl VoicePlayer {
    /// A player that takes chunks from `sample_receiver`, waiting for the first.
    pub fn new(sample_receiver: Receiver<Vec<i16>>, sample_rate: u32) -> (r: VoicePlayer)
        ensures
            r@.state == PlaybackState::AwaitingChunk,
            r@.sample_rate == sample_rate,
    {
        VoicePlayer { sample_receiver, sample_rate, state: PlaybackState::AwaitingChunk }
    }

    /// The stage the player stands at.
    pub fn state(&self) -> (r: PlaybackState)
        ensures
            r == self@.state,
    {
        self.state
    }

    /// The number of interleaved channels: playback is mono.
    pub fn channel_count(&self) -> (r: u32)
        ensures
            r == 1,
    {
        1
    }

    /// The sample rate fixed at construction.
    pub fn sample_rate(&self) -> (r: u32)
        ensures
            r == self@.sample_rate,
    {
        self.sample_rate
    }

    /// Acts on what waiting for the next chunk gave: returns the samples to
    /// play and whether to keep playing.
    pub fn on_received(&mut self, ev: Received) -> (r: (Vec<i16>, bool))
        ensures
            final(self)@.sample_rate == old(self)@.sample_rate,
            final(self)@.state == pull_state(old(self)@.state, ev),
            r.1 == (final(self)@.state == PlaybackState::PlayingChunk),
            r.1 ==> (ev matches Received::Chunk(c) && r.0@ == c@),
            !r.1 ==> r.0@ == silence(),
    {
        if self.state == PlaybackState::Finished {
            return (vec![0i16], false);
        }
        match ev {
            Received::Chunk(c) => {
                if c.len() > 0 {
                    self.state = PlaybackState::PlayingChunk;
                    (c, true)
                } else {
                    self.state = PlaybackState::Finished;
                    (vec![0i16], false)
                }
            },
            _ => {
                self.state = PlaybackState::Finished;
                (vec![0i16], false)
            },
        }
    }

    /// Answers one pull of the audio subsystem: the chunk handed out last time
    /// is discarded and the next one is awaited for at most ten seconds. A
    /// non-empty chunk is played; the empty end-of-message chunk, a timeout or
    /// a sender that has gone away end the stream with a short silence. Once
    /// ended, the stream stays ended and nothing more is awaited.
    pub fn get_data(&mut self) -> (r: (Vec<i16>, bool))
        ensures
            final(self)@.sample_rate == old(self)@.sample_rate,
            old(self)@.state == PlaybackState::Finished ==> final(self)@.state == PlaybackState::Finished,
            final(self)@.state != PlaybackState::AwaitingChunk,
            r.1 == (final(self)@.state == PlaybackState::PlayingChunk),
            r.1 ==> r.0@.len() > 0,
            !r.1 ==> r.0@ == silence(),
    {
        if self.state == PlaybackState::Finished {
            return (vec![0i16], false);
        }
        self.state = PlaybackState::AwaitingChunk;
        let ev = receive_within(&self.sample_receiver, RECEIVE_TIMEOUT_SECS);
        self.on_received(ev)
    }

    /// Answers one pull as `get_data` does, taking the next chunk from an
    /// in-memory channel instead of waiting on the receiver.
    pub fn pull_from(&mut self, ch: &mut SampleChannel) -> (r: (Vec<i16>, bool))
        ensures
            final(self)@.sample_rate == old(self)@.sample_rate,
            final(self)@.state == channel_pull_state(old(self)@.state, old(ch)@),
            old(self)@.state == PlaybackState::Finished ==> final(ch)@ == old(ch)@,
            old(self)@.state != PlaybackState::Finished ==> final(ch)@ == receive_spec(old(ch)@),
            r.1 == (final(self)@.state == PlaybackState::PlayingChunk),
            r.1 ==> r.0@ == old(ch)@.pending[0],
            !r.1 ==> r.0@ == silence(),
    {
        if self.state == PlaybackState::Finished {
            return (vec![0i16], false);
        }
        self.state = PlaybackState::AwaitingChunk;
        let ev = match ch.receive() {
            Ok(c) => Received::Chunk(c),
            Err(PipelineError::ChannelClosed) => Received::Closed,
            Err(_) => Received::Timeout,
        };
        self.on_received(ev)
    }
}

/// The result of a sequence of pulls from `s`, one for each of `evs`.
pub open spec fn pull_all(s: PlaybackState, evs: Seq<Received>) -> PlaybackState
    decreases evs.len(),
{
    if evs.len() == 0 {
        s
    } else {
        pull_state(pull_all(s, evs.drop_last()), evs.last())
    }
}

/// Once the stream has ended, no sequence of pulls, whatever they receive,
/// brings playback back.
pub proof fn lemma_finished_is_final(evs: Seq<Received>)
    ensures
        pull_all(PlaybackState::Finished, evs) == PlaybackState::Finished,
    decreases evs.len(),
{
    if evs.len() > 0 {
        lemma_finished_is_final(evs.drop_last());
    }
}

/// The empty end-of-message chunk sent into an empty open channel stops
/// playback on the very next pull, whatever stage it stood at.
pub proof fn lemma_sentinel_stops(s: PlaybackState, v: ChannelView)
    requires
        !v.closed,
        v.pending.len() == 0,
        v.capacity > 0,
    ensures
        channel_pull_state(s, send_spec(v, Seq::<i16>::empty())) == PlaybackState::Finished,
{
    let w = send_spec(v, Seq::<i16>::empty());
    assert(w.pending[0] == Seq::<i16>::empty());
}

} // verus!
