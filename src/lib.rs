//! Core of a two-peer voice link: the capture gain, the chunk channel, frame
//! aggregation, the frame wire format and the playback state machine.

pub mod aggregate;
pub mod capture;
pub mod channel;
pub mod chunk;
pub mod error;
pub mod frame;
pub mod gain;
pub mod opt;
pub mod playback;

pub use aggregate::ChunkAggregator;
pub use capture::VoiceRecorder;
pub use channel::SampleChannel;
pub use error::PipelineError;
pub use frame::{decode_frame, encode_frame, outbound_for, FrameAssembler, Outbound};
pub use gain::{apply_gain, scale_sample};
pub use opt::Opt;
pub use playback::{PlaybackState, Received, VoicePlayer, RECEIVE_TIMEOUT_SECS};
