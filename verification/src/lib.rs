//! A minimal client library for a remote chat-completion API.
//!
//! The library owns the chat data model and its JSON wire format: requests
//! are encoded in one canonical byte form, and replies are decoded as JSON —
//! whitespace, member order, unknown members and the standard string escapes
//! all handled — by verified code, byte by byte.
//! The network exchange itself is left to the surrounding application, which
//! hands the reply (body bytes or a transport failure) back to the library.

pub mod api;
pub mod decode;
pub mod encode;
pub mod laws;
pub mod model;
pub mod wire;

pub use api::ApiError;
pub use api::interpret_reply;
pub use decode::DecodeError;
pub use model::ChatCompletionChoice;
pub use model::ChatCompletionRequest;
pub use model::ChatCompletionResponse;
pub use model::CompletionUsage;
pub use model::ChatEntry;
pub use model::ChatLog;
pub use model::ChatRole;
pub use model::FinishReason;
