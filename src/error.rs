use vstd::prelude::*;

verus! {

/// What can go wrong along the pipeline.
#[derive(Debug, Clone, Copy, PartialEq, Eq, Structural)]
pub enum PipelineError {
    /// The other side of a channel has gone away.
    ChannelClosed,
    /// Nothing arrived within the allotted wait.
    Timeout,
    /// The connection failed or closed in the middle of a frame.
    TransportError,
    /// A frame does not have the agreed byte length.
    SerializationError,
}

} // verus!
