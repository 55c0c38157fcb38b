//! The client-facing result taxonomy and the verified half of the completion
//! exchange.
//!
//! The network round trip itself is I/O and lives outside the library; what
//! it yields — either reply bytes or a transport failure — is handed to
//! [`interpret_reply`], which settles the outcome exactly: a transport
//! failure surfaces as [`ApiError::Transport`] untouched, and reply bytes
//! are decoded or fail as [`ApiError::Decode`].

use vstd::prelude::*;

use crate::decode::sp_decode_response;
use crate::decode::DecodeError;
use crate::model::ChatCompletionResponse;

verus! {

/// Why a completion exchange failed: the transport could not deliver a
/// reply, or the reply's bytes do not decode. Exactly one of the two; a
/// failure is never an empty-but-valid response.
#[derive(Debug)]
pub enum ApiError {
    /// The network call could not complete; carries the transport's own
    /// message.
    Transport(String),
    /// A reply arrived but its bytes are not a well-formed completion
    /// response.
    Decode(DecodeError),
}

/// Settle a completion exchange from what the transport produced.
///
/// A transport failure is surfaced as [`ApiError::Transport`] with its
/// message kept, and no decoding is attempted on it. Reply bytes are decoded
/// exactly as [`ChatCompletionResponse::from_json`] does.
pub fn interpret_reply(reply: Result<Vec<u8>, String>) -> (r: Result<
    ChatCompletionResponse,
    ApiError,
>)
    ensures
        match reply {
            Err(msg) => r matches Err(e) && e matches ApiError::Transport(m) && m@ == msg@,
            Ok(body) => match sp_decode_response(body@) {
                Some(v) => r matches Ok(resp) && resp@ == v,
                None => r matches Err(e) && e is Decode,
            },
        },
{
    match reply {
        Err(msg) => Err(ApiError::Transport(msg)),
        Ok(body) => match ChatCompletionResponse::from_json(body.as_slice()) {
            Ok(resp) => Ok(resp),
            Err(e) => Err(ApiError::Decode(e)),
        },
    }
}

} // verus!
