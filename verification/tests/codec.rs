use openai_client::ChatCompletionRequest;
use openai_client::ChatCompletionResponse;
use openai_client::ChatEntry;
use openai_client::ChatLog;
use openai_client::ChatRole;
use openai_client::FinishReason;

fn entry(role: ChatRole, content: &str) -> ChatEntry {
    ChatEntry { role, content: content.as_bytes().to_vec() }
}

#[test]
fn test_chat_log() {
    let log = ChatLog(vec![
        entry(ChatRole::System, "Hello, world!"),
        entry(ChatRole::User, "Hello, world!"),
        entry(ChatRole::Assistant, "Hello, world!"),
    ]);
    let serialized = log.to_json();
    assert_eq!(
        serialized,
        br#"[{"role":"system","content":"Hello, world!"},{"role":"user","content":"Hello, world!"},{"role":"assistant","content":"Hello, world!"}]"#.to_vec()
    );
}

#[test]
fn request_encoding_matches_wire_example() {
    let log = ChatLog(vec![
        entry(ChatRole::System, "You are an assistant that always says \"A\""),
        entry(ChatRole::User, "Please say \"A\". Do not say anything else, only \"A\"."),
    ]);
    let request = ChatCompletionRequest::from_log(log);
    let body = request.to_json();
    let expected = br#"{"model":"gpt-3.5-turbo","messages":[{"role":"system","content":"You are an assistant that always says \"A\""},{"role":"user","content":"Please say \"A\". Do not say anything else, only \"A\"."}]}"#;
    assert_eq!(body, expected.to_vec());
}

#[test]
fn response_decoding_matches_wire_example() {
    let bytes = br#"{"id":"x","object":"chat.completion","created":1,"choices":[{"index":0,"message":{"role":"assistant","content":"A"},"finish_reason":"stop"}],"usage":{"prompt_tokens":10,"completion_tokens":1,"total_tokens":11}}"#;
    let response = ChatCompletionResponse::from_json(bytes).expect("example must decode");
    assert_eq!(response.id, b"x".to_vec());
    assert_eq!(response.object, b"chat.completion".to_vec());
    assert_eq!(response.created, 1);
    assert_eq!(response.choices.len(), 1);
    let choice = &response.choices[0];
    assert_eq!(choice.index, 0);
    assert_eq!(choice.message.role, ChatRole::Assistant);
    assert_eq!(choice.message.content, b"A".to_vec());
    assert_eq!(choice.finish_reason, FinishReason::Stop);
    assert_eq!(response.usage.prompt_tokens, 10);
    assert_eq!(response.usage.completion_tokens, 1);
    assert_eq!(response.usage.total_tokens, 11);
}

#[test]
fn conversation_round_trips_with_tricky_content() {
    let log = ChatLog(vec![
        entry(ChatRole::User, "quote \" backslash \\ done"),
        entry(ChatRole::Assistant, "line one\nline two\ttabbed"),
        entry(ChatRole::User, "accents \u{e9}\u{20ac} and more"),
        entry(ChatRole::User, ""),
        entry(ChatRole::User, "plain"),
    ]);
    let encoded = log.to_json();
    let decoded = ChatLog::from_json(&encoded).expect("own encoding must decode");
    assert_eq!(decoded.0.len(), log.0.len());
    for (a, b) in decoded.0.iter().zip(log.0.iter()) {
        assert_eq!(a.role, b.role);
        assert_eq!(a.content, b.content);
    }
}

#[test]
fn empty_conversation_round_trips() {
    let log = ChatLog(vec![]);
    let encoded = log.to_json();
    assert_eq!(encoded, b"[]".to_vec());
    let decoded = ChatLog::from_json(&encoded).expect("empty array must decode");
    assert!(decoded.0.is_empty());
}

#[test]
fn control_byte_content_encodes_as_escape_and_returns() {
    let log = ChatLog(vec![entry(ChatRole::User, "\u{1}")]);
    let encoded = log.to_json();
    assert_eq!(encoded, br#"[{"role":"user","content":"\u0001"}]"#.to_vec());
    let decoded = ChatLog::from_json(&encoded).expect("escape must decode");
    assert_eq!(decoded.0[0].content, vec![1u8]);
}

#[test]
fn newline_escape_decodes_to_newline() {
    let bytes = br#"[{"role":"user","content":"a\u000ab"}]"#;
    let decoded = ChatLog::from_json(bytes).expect("newline escape must decode");
    assert_eq!(decoded.0[0].content, b"a\nb".to_vec());
}

#[test]
fn unknown_role_token_is_rejected() {
    let bytes = br#"[{"role":"robot","content":"x"}]"#;
    assert!(ChatLog::from_json(bytes).is_err());
}

#[test]
fn capitalized_role_token_is_rejected() {
    let bytes = br#"[{"role":"System","content":"x"}]"#;
    assert!(ChatLog::from_json(bytes).is_err());
}

#[test]
fn unknown_finish_reason_token_is_rejected() {
    let bytes = br#"{"id":"x","object":"o","created":1,"choices":[{"index":0,"message":{"role":"assistant","content":"A"},"finish_reason":"cut"}],"usage":{"prompt_tokens":1,"completion_tokens":1,"total_tokens":2}}"#;
    assert!(ChatCompletionResponse::from_json(bytes).is_err());
}

#[test]
fn default_model_is_injected() {
    let log = ChatLog(vec![entry(ChatRole::User, "hi")]);
    let request = ChatCompletionRequest::from_log(log);
    assert_eq!(request.model, b"gpt-3.5-turbo".to_vec());
    let other = ChatCompletionRequest::new(
        b"gpt-4".to_vec(),
        ChatLog(vec![entry(ChatRole::User, "hi")]),
    );
    assert_eq!(other.model, b"gpt-4".to_vec());
}

#[test]
fn truncated_payload_is_rejected() {
    assert!(ChatLog::from_json(b"[{\"role\":\"user\"").is_err());
    assert!(ChatCompletionResponse::from_json(b"{").is_err());
    assert!(ChatLog::from_json(b"").is_err());
}

#[test]
fn trailing_bytes_are_rejected() {
    assert!(ChatLog::from_json(b"[]x").is_err());
}

#[test]
fn missing_field_is_rejected() {
    let bytes = br#"[{"role":"user"}]"#;
    assert!(ChatLog::from_json(bytes).is_err());
}

#[test]
fn wrong_field_type_is_rejected() {
    let bytes = br#"{"id":"x","object":"o","created":"soon","choices":[],"usage":{"prompt_tokens":1,"completion_tokens":1,"total_tokens":2}}"#;
    assert!(ChatCompletionResponse::from_json(bytes).is_err());
}

#[test]
fn whitespace_is_insignificant() {
    let decoded = ChatLog::from_json(b" [ ] ").expect("spaced empty array must decode");
    assert!(decoded.0.is_empty());
    let bytes = br#"
    [ { "role" : "user" ,
        "content" : "hi" } ]"#;
    let decoded = ChatLog::from_json(bytes).expect("spaced conversation must decode");
    assert_eq!(decoded.0[0].role, ChatRole::User);
    assert_eq!(decoded.0[0].content, b"hi".to_vec());
}

#[test]
fn members_decode_in_any_order() {
    let bytes = br#"{"usage":{"total_tokens":11,"prompt_tokens":10,"completion_tokens":1},"choices":[{"finish_reason":"stop","message":{"content":"A","role":"assistant"},"index":0}],"created":1,"object":"chat.completion","id":"x"}"#;
    let response = ChatCompletionResponse::from_json(bytes).expect("reordered members must decode");
    assert_eq!(response.id, b"x".to_vec());
    assert_eq!(response.created, 1);
    assert_eq!(response.choices[0].message.role, ChatRole::Assistant);
    assert_eq!(response.choices[0].message.content, b"A".to_vec());
    assert_eq!(response.usage.total_tokens, 11);
}

#[test]
fn unknown_members_are_skipped() {
    let bytes = br#"[{"role":"user","content":"hi","name":"alice","meta":{"a":[1,2.5,-3e2,true,false,null,"s"],"b":{}}}]"#;
    let decoded = ChatLog::from_json(bytes).expect("unknown members must be skipped");
    assert_eq!(decoded.0[0].content, b"hi".to_vec());
    let bytes = br#"{"id":"x","object":"o","created":5,"choices":[],"usage":{"prompt_tokens":1,"completion_tokens":1,"total_tokens":2},"system_fingerprint":"fp"}"#;
    assert!(ChatCompletionResponse::from_json(bytes).is_ok());
}

#[test]
fn duplicate_member_is_rejected() {
    let bytes = br#"[{"role":"user","content":"a","content":"b"}]"#;
    assert!(ChatLog::from_json(bytes).is_err());
}

#[test]
fn standard_short_escapes_decode() {
    let bytes = br#"[{"role":"user","content":"a\n\t\r\b\f\/\"\\z"}]"#;
    let decoded = ChatLog::from_json(bytes).expect("standard escapes must decode");
    assert_eq!(decoded.0[0].content, b"a\n\t\r\x08\x0c/\"\\z".to_vec());
}

#[test]
fn uppercase_hex_escape_decodes() {
    let bytes = br#"[{"role":"user","content":"a\u000Ab"}]"#;
    let decoded = ChatLog::from_json(bytes).expect("uppercase hex must decode");
    assert_eq!(decoded.0[0].content, b"a\nb".to_vec());
}

#[test]
fn surrogate_pair_escape_decodes_to_utf8() {
    let bytes = br#"[{"role":"user","content":"\uD83D\uDE00"}]"#;
    let decoded = ChatLog::from_json(bytes).expect("surrogate pair must decode");
    assert_eq!(decoded.0[0].content, "\u{1F600}".as_bytes().to_vec());
}

#[test]
fn lone_surrogate_escape_is_rejected() {
    let bytes = br#"[{"role":"user","content":"\uD83Dx"}]"#;
    assert!(ChatLog::from_json(bytes).is_err());
}

#[test]
fn leading_zero_integer_is_rejected() {
    let bytes = br#"{"id":"x","object":"o","created":01,"choices":[],"usage":{"prompt_tokens":1,"completion_tokens":1,"total_tokens":2}}"#;
    assert!(ChatCompletionResponse::from_json(bytes).is_err());
}

#[test]
fn empty_choices_decode_as_empty_not_error() {
    let bytes = br#"{"id":"x","object":"o","created":5,"choices":[],"usage":{"prompt_tokens":1,"completion_tokens":1,"total_tokens":2}}"#;
    let response = ChatCompletionResponse::from_json(bytes).expect("empty choices are legal");
    assert!(response.choices.is_empty());
}

#[test]
fn several_choices_keep_their_order() {
    let bytes = br#"{"id":"x","object":"o","created":2,"choices":[{"index":0,"message":{"role":"assistant","content":"first"},"finish_reason":"stop"},{"index":1,"message":{"role":"assistant","content":"second"},"finish_reason":"length"}],"usage":{"prompt_tokens":3,"completion_tokens":4,"total_tokens":7}}"#;
    let response = ChatCompletionResponse::from_json(bytes).expect("two choices must decode");
    assert_eq!(response.choices.len(), 2);
    assert_eq!(response.choices[0].message.content, b"first".to_vec());
    assert_eq!(response.choices[0].finish_reason, FinishReason::Stop);
    assert_eq!(response.choices[1].index, 1);
    assert_eq!(response.choices[1].message.content, b"second".to_vec());
    assert_eq!(response.choices[1].finish_reason, FinishReason::Length);
}

#[test]
fn oversized_number_is_rejected() {
    let bytes = br#"{"id":"x","object":"o","created":99999999999999999999999999999999,"choices":[],"usage":{"prompt_tokens":1,"completion_tokens":1,"total_tokens":2}}"#;
    assert!(ChatCompletionResponse::from_json(bytes).is_err());
}

#[test]
fn four_digit_unicode_escape_decodes_to_utf8() {
    let bytes = br#"[{"role":"user","content":"\u0141"}]"#;
    let decoded = ChatLog::from_json(bytes).expect("BMP escape must decode");
    assert_eq!(decoded.0[0].content, "\u{141}".as_bytes().to_vec());
}
