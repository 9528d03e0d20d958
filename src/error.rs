//! The failures of one completion call; the first one met ends the call.
use vstd::prelude::*;

verus! {

/// What a successful backend message lacked.
#[derive(Debug, Clone, Copy, PartialEq, Eq)]
pub enum ProtocolFault {
    /// The message carried neither an error nor an inference result.
    MissingInferResponse,
    /// The inference result held no raw output buffer.
    MissingRawOutput,
}

/// Every way a completion call can fail.
#[derive(Debug, Clone, PartialEq, Eq)]
pub enum CompletionError {
    /// An input tensor could not be built; nothing was sent.
    Build,
    /// Opening or writing the backend stream failed.
    Transport(String),
    /// The backend reported an error in a streamed message.
    Backend(String),
    /// A message reporting success lacked the expected payload.
    Protocol(ProtocolFault),
    /// A byte tensor was cut short or did not hold UTF-8 text.
    Decode,
    /// The current time could not be read.
    Clock,
    /// Incremental delivery was asked for; it is not offered.
    NotImplemented,
}

} // verus!
