use clawnicle::{Error, LlmMessage, LlmProvider, LlmRequest, LlmResponse, MockProvider};

fn response(content: &str) -> LlmResponse {
    LlmResponse {
        model: "m".into(),
        content: content.into(),
        tokens_in: 1,
        tokens_out: 1,
    }
}

#[test]
fn mock_returns_queued_responses_in_order() {
    let mut provider = MockProvider::new(vec![response("first"), response("second")]);
    let req = LlmRequest::new("m", vec![LlmMessage::user("hi")]);
    assert_eq!(provider.complete(&req).unwrap().content, "first");
    assert_eq!(provider.complete(&req).unwrap().content, "second");
    assert!(provider.complete(&req).is_err());
    assert_eq!(provider.call_count(), 3);
}

#[test]
fn exhausted_mock_says_so() {
    let mut provider = MockProvider::new(vec![]);
    let req = LlmRequest::new("m", vec![]);
    assert_eq!(provider.call_count(), 0);
    assert!(matches!(
        provider.complete(&req),
        Err(Error::Tool(text)) if text == "mock provider exhausted"
    ));
}
