use vstd::prelude::*;

verus! {

/// Command-line settings of a call.
pub struct Opt {
    /// Place the call rather than wait for one.
    pub call: bool,
    /// Local address to bind, of the form <ip>:<port>.
    pub from: String,
    /// Address to connect with, of the form <ip>:<port>, e.g. 127.0.0.1:8080.
    pub address: String,
}

} // verus!
