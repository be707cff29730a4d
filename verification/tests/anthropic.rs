use clawnicle::anthropic::{
    build_request_body, check_reply, http_error, parse_response, transport_error,
    AnthropicContentBlock, AnthropicResponse, AnthropicUsage, Stage, DEFAULT_MAX_TOKENS,
};
use clawnicle::{AnthropicProvider, Error, LlmMessage, LlmRequest};
use serde_json::Value;

/// Decodes the body of a reply.
fn decode(bytes: &[u8]) -> Result<AnthropicResponse, String> {
    let value: Value = serde_json::from_slice(bytes).map_err(|e| e.to_string())?;
    let number = |v: &Value| v.as_u64().unwrap() as u32;
    Ok(AnthropicResponse {
        model: value["model"].as_str().unwrap().to_string(),
        content: value["content"]
            .as_array()
            .unwrap()
            .iter()
            .map(|block| AnthropicContentBlock::Text {
                text: block["text"].as_str().unwrap().to_string(),
            })
            .collect(),
        usage: AnthropicUsage {
            input_tokens: number(&value["usage"]["input_tokens"]),
            output_tokens: number(&value["usage"]["output_tokens"]),
        },
    })
}

fn message(error: Error) -> String {
    match error {
        Error::Tool(text) => text,
        _ => panic!("a tool error was expected"),
    }
}

#[test]
fn build_request_hoists_system_messages_to_top_level_field() {
    let req = LlmRequest::new(
        "haiku-4-5",
        vec![
            LlmMessage::system("you are terse"),
            LlmMessage::system("no emojis"),
            LlmMessage::user("hi"),
        ],
    );
    let body = build_request_body(&req);
    assert_eq!(body.model, "haiku-4-5");
    assert_eq!(body.messages.len(), 1);
    assert_eq!(body.messages[0].role, "user");
    assert_eq!(body.system.as_deref(), Some("you are terse\n\nno emojis"));
}

#[test]
fn build_request_default_max_tokens_when_none() {
    let req = LlmRequest::new("m", vec![LlmMessage::user("hi")]);
    let body = build_request_body(&req);
    assert_eq!(body.max_tokens, DEFAULT_MAX_TOKENS);
    assert_eq!(body.max_tokens, 1024);
}

#[test]
fn build_request_user_specified_max_tokens_wins() {
    let mut req = LlmRequest::new("m", vec![LlmMessage::user("hi")]);
    req.max_tokens = Some(64);
    let body = build_request_body(&req);
    assert_eq!(body.max_tokens, 64);
}

#[test]
fn parse_response_extracts_text_and_usage() {
    let raw = br#"{
        "id": "msg_01",
        "type": "message",
        "role": "assistant",
        "model": "haiku-4-5",
        "content": [
            {"type": "text", "text": "hello world"}
        ],
        "usage": {
            "input_tokens": 42,
            "output_tokens": 7
        }
    }"#;
    let resp = parse_response(decode(raw)).unwrap();
    assert_eq!(resp.content, "hello world");
    assert_eq!(resp.tokens_in, 42);
    assert_eq!(resp.tokens_out, 7);
    assert_eq!(resp.model, "haiku-4-5");
}

#[test]
fn parse_response_handles_multiple_content_blocks() {
    let raw = br#"{
        "model": "m",
        "content": [
            {"type": "text", "text": "first"}
        ],
        "usage": {"input_tokens": 1, "output_tokens": 1}
    }"#;
    let resp = parse_response(decode(raw)).unwrap();
    assert_eq!(resp.content, "first");
}

#[test]
fn parse_response_error_on_malformed_json() {
    let res = parse_response(decode(b"not-json"));
    assert!(matches!(res, Err(Error::Tool(_))));
}

#[test]
fn parse_response_takes_the_first_text() {
    let raw = br#"{
        "model": "m",
        "content": [
            {"type": "text", "text": "first"},
            {"type": "text", "text": "second"}
        ],
        "usage": {"input_tokens": 1, "output_tokens": 2}
    }"#;
    assert_eq!(parse_response(decode(raw)).unwrap().content, "first");
    let none = br#"{"model": "m", "content": [], "usage": {"input_tokens": 1, "output_tokens": 2}}"#;
    let resp = parse_response(decode(none)).unwrap();
    assert_eq!(resp.content, "");
    assert_eq!(resp.tokens_out, 2);
}

#[test]
fn parse_response_says_what_was_malformed() {
    let res = parse_response(Err("expected ident at line 1 column 2".to_string()));
    assert_eq!(
        message(res.unwrap_err()),
        "anthropic parse: expected ident at line 1 column 2"
    );
}

#[test]
fn dialogue_passes_through_unchanged() {
    let req = LlmRequest::new(
        "m",
        vec![
            LlmMessage::user("a"),
            LlmMessage::assistant("b"),
            LlmMessage::user("c"),
        ],
    );
    let body = build_request_body(&req);
    assert_eq!(body.system, None);
    let said: Vec<(&str, &str)> = body
        .messages
        .iter()
        .map(|m| (m.role, m.content.as_str()))
        .collect();
    assert_eq!(said, vec![("user", "a"), ("assistant", "b"), ("user", "c")]);
}

#[test]
fn empty_system_messages_leave_no_blank_lines_in_front() {
    let system = |texts: &[&str]| {
        let messages = texts.iter().map(|text| LlmMessage::system(text)).collect();
        build_request_body(&LlmRequest::new("m", messages)).system
    };
    assert_eq!(system(&["", ""]), None);
    assert_eq!(system(&["", "a"]).as_deref(), Some("a"));
    assert_eq!(system(&["a", ""]).as_deref(), Some("a\n\n"));
    assert_eq!(system(&["a", "b", "c"]).as_deref(), Some("a\n\nb\n\nc"));
}

#[test]
fn body_is_sent_as_json() {
    let mut req = LlmRequest::new(
        "m",
        vec![
            LlmMessage::system("be \"terse\""),
            LlmMessage::user("hi"),
            LlmMessage::assistant("yes?"),
        ],
    );
    assert_eq!(
        build_request_body(&LlmRequest::new("m", vec![])).to_json(),
        "{\"model\":\"m\",\"max_tokens\":1024,\"messages\":[]}"
    );
    req.temperature = Some("0.5".to_string());
    assert_eq!(
        build_request_body(&req).to_json(),
        "{\"model\":\"m\",\"max_tokens\":1024,\"messages\":[\
         {\"role\":\"user\",\"content\":\"hi\"},\
         {\"role\":\"assistant\",\"content\":\"yes?\"}],\
         \"system\":\"be \\\"terse\\\"\",\"temperature\":0.5}"
    );
}

#[test]
fn a_temperature_that_is_no_number_is_sent_as_null() {
    let mut req = LlmRequest::new("m", vec![]);
    req.temperature = Some("inf".to_string());
    assert_eq!(
        build_request_body(&req).to_json(),
        "{\"model\":\"m\",\"max_tokens\":1024,\"messages\":[],\"temperature\":null}"
    );
}

#[test]
fn requests_carry_the_key_and_the_version() {
    let provider = AnthropicProvider::new("SECRET-REDACTED");
    assert_eq!(provider.base_url(), "https://api.anthropic.com/v1/messages");
    let headers: Vec<(&str, String)> = provider
        .headers()
        .into_iter()
        .map(|h| (h.name, h.value))
        .collect();
    assert_eq!(
        headers,
        vec![
            ("x-api-key", "SECRET-REDACTED".to_string()),
            ("anthropic-version", "2023-06-01".to_string()),
            ("content-type", "application/json".to_string()),
        ]
    );
    let local = provider.with_base_url("http://localhost:8080");
    assert_eq!(local.base_url(), "http://localhost:8080");
}

#[test]
fn replies_pass_where_the_status_is_a_success() {
    assert!(check_reply(200, b"{}").is_ok());
    assert!(check_reply(299, b"").is_ok());
    assert_eq!(
        message(check_reply(300, b"").unwrap_err()),
        "anthropic http 300: "
    );
    assert_eq!(
        message(check_reply(199, b"early").unwrap_err()),
        "anthropic http 199: early"
    );
    assert_eq!(
        message(check_reply(529, b"overloaded").unwrap_err()),
        "anthropic http 529: overloaded"
    );
}

#[test]
fn failed_replies_are_shown_in_part() {
    let body = vec![b'x'; 600];
    let shown = message(check_reply(500, &body).unwrap_err());
    assert_eq!(shown, format!("anthropic http 500: {}", "x".repeat(512)));
    let broken = [b'a', 0xff, b'b'];
    assert_eq!(
        message(check_reply(500, &broken).unwrap_err()),
        "anthropic http 500: a\u{fffd}b"
    );
    assert_eq!(
        message(http_error(404, "gone")),
        "anthropic http 404: gone"
    );
}

#[test]
fn broken_requests_say_where_they_broke() {
    assert_eq!(
        message(transport_error(Stage::Client, "no tls")),
        "reqwest client: no tls"
    );
    assert_eq!(
        message(transport_error(Stage::Send, "refused")),
        "anthropic send: refused"
    );
    assert_eq!(
        message(transport_error(Stage::Body, "reset")),
        "anthropic body: reset"
    );
}
