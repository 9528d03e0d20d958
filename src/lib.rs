//! Completion requests served by a streaming tensor inference backend: request translation,
//! the length-prefixed byte-tensor codec, the stream state machine and the response envelope.
pub mod codec;
pub mod driver;
pub mod error;
pub mod request;
pub mod response;
pub mod tensor;
pub mod text;
