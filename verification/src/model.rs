//! The chat data model: roles, messages, conversations, requests, and the
//! typed shape of a completion reply.
//!
//! Text fields (message content, model identifier, reply identifiers) are held
//! as UTF-8 bytes, which is the form the wire format works on.

use vstd::prelude::*;

verus! {

/// Who authored a dialogue turn. A closed set: the wire format accepts exactly
/// the three lowercase tokens `system`, `user` and `assistant`.
#[derive(Clone, Copy, PartialEq, Eq, Structural, Debug)]
pub enum ChatRole {
    System,
    User,
    Assistant,
}

/// Why generation stopped for a choice. A closed set: exactly the wire tokens
/// `stop` and `length`.
#[derive(Clone, Copy, PartialEq, Eq, Structural, Debug)]
pub enum FinishReason {
    Stop,
    Length,
}

/// A single dialogue turn: who spoke, and the UTF-8 bytes of what was said.
pub struct ChatEntry {
    pub role: ChatRole,
    pub content: Vec<u8>,
}

/// The mathematical value of a [`ChatEntry`].
pub ghost struct MessageV {
    pub role: ChatRole,
    pub content: Seq<u8>,
}

impl View for ChatEntry {
    type V = MessageV;

    open spec fn view(&self) -> MessageV {
        MessageV { role: self.role, content: self.content@ }
    }
}

/// An ordered conversation history. Order is significant and is preserved
/// exactly by the wire encoding; repeated roles are legal.
pub struct ChatLog(pub Vec<ChatEntry>);

/// The mathematical values of a sequence of dialogue turns.
pub open spec fn entry_views(v: Seq<ChatEntry>) -> Seq<MessageV> {
    v.map_values(|e: ChatEntry| e@)
}

impl View for ChatLog {
    type V = Seq<MessageV>;

    open spec fn view(&self) -> Seq<MessageV> {
        entry_views(self.0@)
    }
}

/// The body of one completion request: the model to target and the
/// conversation so far.
pub struct ChatCompletionRequest {
    pub model: Vec<u8>,
    pub messages: ChatLog,
}

/// The mathematical value of a [`ChatCompletionRequest`].
pub ghost struct RequestV {
    pub model: Seq<u8>,
    pub messages: Seq<MessageV>,
}

impl View for ChatCompletionRequest {
    type V = RequestV;

    open spec fn view(&self) -> RequestV {
        RequestV { model: self.model@, messages: self.messages@ }
    }
}

/// The model identifier a request carries when the caller does not pick one:
/// the bytes of `gpt-3.5-turbo`.
pub open spec fn spec_default_model() -> Seq<u8> {
    seq![103u8, 112u8, 116u8, 45u8, 51u8, 46u8, 53u8, 45u8, 116u8, 117u8, 114u8, 98u8, 111u8]
}

/// The default model identifier, `gpt-3.5-turbo`, as owned bytes.
pub fn default_model() -> (r: Vec<u8>)
    ensures
        r@ == spec_default_model(),
{
    let mut v: Vec<u8> = Vec::new();
    v.push(103);
    v.push(112);
    v.push(116);
    v.push(45);
    v.push(51);
    v.push(46);
    v.push(53);
    v.push(45);
    v.push(116);
    v.push(117);
    v.push(114);
    v.push(98);
    v.push(111);
    proof {
        assert(v@ =~= spec_default_model());
    }
    v
}

impl ChatCompletionRequest {
    /// Pair a model identifier with a conversation.
    pub fn new(model: Vec<u8>, messages: ChatLog) -> (r: ChatCompletionRequest)
        ensures
            r@.model == model@,
            r@.messages == messages@,
    {
        ChatCompletionRequest { model, messages }
    }

    /// Build a request from a conversation alone: the default model
    /// identifier is always injected.
    pub fn from_log(log: ChatLog) -> (r: ChatCompletionRequest)
        ensures
            r@.model == spec_default_model(),
            r@.messages == log@,
    {
        ChatCompletionRequest::new(default_model(), log)
    }
}

/// Token accounting reported by the service.
#[derive(Clone, Copy, PartialEq, Eq, Structural, Debug)]
pub struct CompletionUsage {
    pub prompt_tokens: usize,
    pub completion_tokens: usize,
    pub total_tokens: usize,
}

/// One candidate completion: its position, the message produced, and why
/// generation stopped.
pub struct ChatCompletionChoice {
    pub index: usize,
    pub message: ChatEntry,
    pub finish_reason: FinishReason,
}

/// The mathematical value of a [`ChatCompletionChoice`].
pub ghost struct ChoiceV {
    pub index: usize,
    pub message: MessageV,
    pub finish_reason: FinishReason,
}

impl View for ChatCompletionChoice {
    type V = ChoiceV;

    open spec fn view(&self) -> ChoiceV {
        ChoiceV { index: self.index, message: self.message@, finish_reason: self.finish_reason }
    }
}

/// The typed shape of a completion reply.
pub struct ChatCompletionResponse {
    pub id: Vec<u8>,
    pub object: Vec<u8>,
    pub created: usize,
    pub choices: Vec<ChatCompletionChoice>,
    pub usage: CompletionUsage,
}

/// The mathematical value of a [`ChatCompletionResponse`].
pub ghost struct ResponseV {
    pub id: Seq<u8>,
    pub object: Seq<u8>,
    pub created: usize,
    pub choices: Seq<ChoiceV>,
    pub usage: CompletionUsage,
}

/// The mathematical values of a sequence of choices.
pub open spec fn choice_views(v: Seq<ChatCompletionChoice>) -> Seq<ChoiceV> {
    v.map_values(|c: ChatCompletionChoice| c@)
}

impl View for ChatCompletionResponse {
    type V = ResponseV;

    open spec fn view(&self) -> ResponseV {
        ResponseV {
            id: self.id@,
            object: self.object@,
            created: self.created,
            choices: choice_views(self.choices@),
            usage: self.usage,
        }
    }
}

} // verus!
