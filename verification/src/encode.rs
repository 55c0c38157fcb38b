//! The canonical JSON encoding of conversations and completion requests.
//!
//! The encoding is defined by spec functions over the mathematical values of
//! the model types; the executable encoders are proved to produce exactly
//! those bytes.

use vstd::prelude::*;

use crate::model::ChatCompletionRequest;
use crate::model::ChatEntry;
use crate::model::ChatLog;
use crate::model::ChatRole;
use crate::model::FinishReason;
use crate::model::MessageV;
use crate::model::RequestV;
use crate::wire;

verus! {

/// The wire token of a role, without quotes.
pub open spec fn role_token(r: ChatRole) -> Seq<u8> {
    match r {
        ChatRole::System => wire::lit_tok_system(),
        ChatRole::User => wire::lit_tok_user(),
        ChatRole::Assistant => wire::lit_tok_assistant(),
    }
}

/// The wire token of a finish reason, without quotes.
pub open spec fn finish_token(f: FinishReason) -> Seq<u8> {
    match f {
        FinishReason::Stop => wire::lit_tok_stop(),
        FinishReason::Length => wire::lit_tok_length(),
    }
}

/// A byte string as a JSON string: quoted and escaped.
pub open spec fn enc_string(s: Seq<u8>) -> Seq<u8> {
    seq![34u8] + wire::esc(s) + seq![34u8]
}

/// A role as a quoted JSON string.
pub open spec fn enc_role_quoted(r: ChatRole) -> Seq<u8> {
    seq![34u8] + role_token(r) + seq![34u8]
}

/// A finish reason as a quoted JSON string.
pub open spec fn enc_finish_quoted(f: FinishReason) -> Seq<u8> {
    seq![34u8] + finish_token(f) + seq![34u8]
}

/// One dialogue turn as a JSON object with `role` and `content` fields.
pub open spec fn enc_entry(m: MessageV) -> Seq<u8> {
    wire::lit_entry_hdr() + enc_role_quoted(m.role) + wire::lit_content_mid()
        + enc_string(m.content) + seq![125u8]
}

/// The elements of a conversation array, commas between them.
pub open spec fn enc_entries(ms: Seq<MessageV>) -> Seq<u8>
    decreases ms.len(),
{
    if ms.len() == 0 {
        Seq::empty()
    } else {
        enc_entry(ms[0]) + enc_entries_rest(ms.skip(1))
    }
}

/// The later elements of a conversation array, a comma before each.
pub open spec fn enc_entries_rest(ms: Seq<MessageV>) -> Seq<u8>
    decreases ms.len(),
{
    if ms.len() == 0 {
        Seq::empty()
    } else {
        seq![44u8] + enc_entry(ms[0]) + enc_entries_rest(ms.skip(1))
    }
}

/// A conversation as a JSON array, element order the conversation's order.
pub open spec fn enc_log(ms: Seq<MessageV>) -> Seq<u8> {
    seq![91u8] + enc_entries(ms) + seq![93u8]
}

/// A completion request as a JSON object with `model` and `messages` fields.
pub open spec fn enc_request(rq: RequestV) -> Seq<u8> {
    wire::lit_request_hdr() + enc_string(rq.model) + wire::lit_messages_mid()
        + enc_log(rq.messages) + seq![125u8]
}

/// Append a quoted, escaped JSON string.
pub fn push_string(out: &mut Vec<u8>, s: &Vec<u8>)
    ensures
        final(out)@ == old(out)@ + enc_string(s@),
{
    out.push(34);
    wire::push_escaped(out, s);
    out.push(34);
    proof {
        assert(out@ =~= old(out)@ + enc_string(s@));
    }
}

/// Append a role as its quoted wire token.
pub fn push_role(out: &mut Vec<u8>, r: ChatRole)
    ensures
        final(out)@ == old(out)@ + enc_role_quoted(r),
{
    out.push(34);
    let tok = match r {
        ChatRole::System => wire::tok_system(),
        ChatRole::User => wire::tok_user(),
        ChatRole::Assistant => wire::tok_assistant(),
    };
    wire::append_bytes(out, &tok);
    out.push(34);
    proof {
        assert(out@ =~= old(out)@ + enc_role_quoted(r));
    }
}

/// Append one dialogue turn as a JSON object.
pub fn push_entry(out: &mut Vec<u8>, e: &ChatEntry)
    ensures
        final(out)@ == old(out)@ + enc_entry(e@),
{
    let hdr = wire::entry_hdr();
    wire::append_bytes(out, &hdr);
    push_role(out, e.role);
    let mid = wire::content_mid();
    wire::append_bytes(out, &mid);
    push_string(out, &e.content);
    out.push(125);
    proof {
        assert(out@ =~= old(out)@ + enc_entry(e@));
    }
}

/// Append the conversation elements from position `k` on, a comma before
/// each.
pub fn push_entries_rest(out: &mut Vec<u8>, entries: &Vec<ChatEntry>, k: usize)
    requires
        k <= entries@.len(),
    ensures
        final(out)@ == old(out)@ + enc_entries_rest(
            entries@.map_values(|e: ChatEntry| e@).skip(k as int),
        ),
    decreases entries@.len() - k,
{
    let ghost sv = entries@.map_values(|e: ChatEntry| e@);
    if k == entries.len() {
        proof {
            assert(sv.skip(k as int) =~= Seq::<MessageV>::empty());
            assert(old(out)@ + enc_entries_rest(sv.skip(k as int)) =~= out@);
        }
    } else {
        out.push(44);
        push_entry(out, &entries[k]);
        push_entries_rest(out, entries, k + 1);
        proof {
            assert(sv.skip(k as int)[0] == sv[k as int]);
            assert(sv[k as int] == entries@[k as int]@);
            assert(sv.skip(k as int).skip(1) =~= sv.skip(k as int + 1));
            assert(out@ =~= old(out)@ + enc_entries_rest(sv.skip(k as int)));
        }
    }
}

/// Append a whole conversation as a JSON array.
pub fn push_log(out: &mut Vec<u8>, log: &ChatLog)
    ensures
        final(out)@ == old(out)@ + enc_log(log@),
{
    let ghost sv = log@;
    out.push(91);
    if log.0.len() > 0 {
        push_entry(out, &log.0[0]);
        push_entries_rest(out, &log.0, 1);
        proof {
            assert(sv[0] == log.0@[0]@);
            assert(log.0@.map_values(|e: ChatEntry| e@).skip(1) =~= sv.skip(1));
        }
    } else {
        proof {
            assert(sv.len() == 0);
        }
    }
    out.push(93);
    proof {
        assert(out@ =~= old(out)@ + enc_log(sv));
    }
}

impl ChatLog {
    /// The canonical JSON bytes of this conversation: an array whose element
    /// order is exactly the conversation's order.
    pub fn to_json(&self) -> (r: Vec<u8>)
        ensures
            r@ == enc_log(self@),
    {
        let mut out: Vec<u8> = Vec::new();
        push_log(&mut out, self);
        proof {
            assert(out@ =~= enc_log(self@));
        }
        out
    }
}

impl ChatCompletionRequest {
    /// The canonical JSON bytes of this request: the `model` field, then the
    /// `messages` array in conversation order.
    pub fn to_json(&self) -> (r: Vec<u8>)
        ensures
            r@ == enc_request(self@),
    {
        let mut out: Vec<u8> = Vec::new();
        let hdr = wire::request_hdr();
        wire::append_bytes(&mut out, &hdr);
        push_string(&mut out, &self.model);
        let mid = wire::messages_mid();
        wire::append_bytes(&mut out, &mid);
        push_log(&mut out, &self.messages);
        out.push(125);
        proof {
            assert(out@ =~= enc_request(self@));
        }
        out
    }
}

} // verus!
