use openai_client::interpret_reply;
use openai_client::ApiError;
use openai_client::ChatRole;

#[test]
fn transport_failure_surfaces_as_transport_error() {
    let outcome = interpret_reply(Err("connection refused".to_string()));
    match outcome {
        Err(ApiError::Transport(msg)) => assert_eq!(msg, "connection refused"),
        _ => panic!("a transport failure must surface as ApiError::Transport"),
    }
}

#[test]
fn undecodable_reply_surfaces_as_decode_error() {
    let outcome = interpret_reply(Ok(b"not json at all".to_vec()));
    assert!(matches!(outcome, Err(ApiError::Decode(_))));
}

#[test]
fn well_formed_reply_is_returned_decoded() {
    let bytes = br#"{"id":"x","object":"chat.completion","created":1,"choices":[{"index":0,"message":{"role":"assistant","content":"A"},"finish_reason":"stop"}],"usage":{"prompt_tokens":10,"completion_tokens":1,"total_tokens":11}}"#;
    let response = interpret_reply(Ok(bytes.to_vec())).expect("reply must decode");
    assert_eq!(response.choices[0].message.role, ChatRole::Assistant);
    assert_eq!(response.choices[0].message.content, b"A".to_vec());
}
