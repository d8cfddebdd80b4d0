use vstd::prelude::*;
use std::sync::mpsc::Sender;
use crate::channel::{send_spec, SampleChannel};
use crate::gain::{apply_gain, gain_spec};

verus! {

/// Declares std's `mpsc::Sender`, held opaque: the recorder only sends on it
/// through `send_chunk`.
#[verifier::external_type_specification]
#[verifier::external_body]
#[verifier::reject_recursive_types(T)]
pub struct ExSender<T>(std::sync::mpsc::Sender<T>);

/// Relies on std's `Sender::send`: hands the chunk over to the receiving side,
/// or drops it when that side has gone away. Nothing is promised of the result.
#[verifier::external_body]
fn send_chunk(tx: &Sender<Vec<i16>>, chunk: Vec<i16>) -> (r: bool) {
    tx.send(chunk).is_ok()
}

/// The capture side: scales every captured buffer by the microphone volume
/// and passes it on, without ever asking the audio subsystem to stop.
pub struct VoiceRecorder {
    sample_sender: Sender<Vec<i16>>,
    microphone_volume: i32,
}

impl VoiceRecorder {
    /// A recorder with a gain of `microphone_volume` percent (100 leaves the
    /// samples as they are, 500 multiplies them by five).
    pub fn new(sample_sender: Sender<Vec<i16>>, microphone_volume: i32) -> (r: VoiceRecorder)
        ensures
            r.volume_spec() == microphone_volume,
    {
        VoiceRecorder { sample_sender, microphone_volume }
    }

    /// The gain in percent, fixed at construction.
    pub closed spec fn volume_spec(&self) -> i32 {
        self.microphone_volume
    }

    /// The gain in percent, fixed at construction.
    pub fn microphone_volume(&self) -> (r: i32)
        ensures
            r == self.volume_spec(),
    {
        self.microphone_volume
    }

    /// Called for each captured buffer: sends the scaled samples on, ignoring
    /// a receiver that has gone away, and asks to keep capturing.
    pub fn on_process_samples(&mut self, samples: &[i16]) -> (r: bool)
        ensures
            r,
            final(self).volume_spec() == old(self).volume_spec(),
    {
        let scaled = apply_gain(samples, self.microphone_volume);
        let _delivered = send_chunk(&self.sample_sender, scaled);
        true
    }

    /// Handles a captured buffer as `on_process_samples` does, sending the
    /// scaled samples into an in-memory channel.
    pub fn process_into(&self, samples: &[i16], ch: &mut SampleChannel) -> (r: bool)
        requires
            old(ch)@.capacity > 0,
        ensures
            r,
            final(ch)@ == send_spec(old(ch)@, gain_spec(samples@, self.volume_spec())),
    {
        let scaled = apply_gain(samples, self.microphone_volume);
        let _sent = ch.send(scaled);
        true
    }
}

} // verus!
