use clawnicle::{LlmMessage, LlmRequest, LlmRole};

#[test]
fn prompt_hash_is_stable_across_calls() {
    let req = LlmRequest::new("haiku-4-5", vec![LlmMessage::user("hi")]);
    assert_eq!(req.prompt_hash(), req.prompt_hash());
}

#[test]
fn different_messages_produce_different_hashes() {
    let a = LlmRequest::new("m", vec![LlmMessage::user("hi")]);
    let b = LlmRequest::new("m", vec![LlmMessage::user("bye")]);
    assert_ne!(a.prompt_hash(), b.prompt_hash());
}

#[test]
fn different_models_produce_different_hashes() {
    let messages = vec![LlmMessage::user("hi")];
    let a = LlmRequest::new("haiku-4-5", messages.clone());
    let b = LlmRequest::new("sonnet-4-6", messages);
    assert_ne!(a.prompt_hash(), b.prompt_hash());
}

#[test]
fn hash_length_is_64_hex_chars() {
    let req = LlmRequest::new("m", vec![LlmMessage::user("x")]);
    let h = req.prompt_hash();
    assert_eq!(h.len(), 64);
    assert!(h.chars().all(|c| c.is_ascii_hexdigit()));
}

#[test]
fn hash_is_that_of_the_json_text() {
    let req = LlmRequest::new("m", vec![LlmMessage::user("hi")]);
    assert_eq!(
        req.to_json(),
        "{\"model\":\"m\",\"messages\":[{\"role\":\"user\",\"content\":\"hi\"}],\
         \"temperature\":null,\"max_tokens\":null}"
    );
    assert_eq!(
        req.prompt_hash(),
        "72885d30b039c636e6db36880608d99ef73ce4109e7571225d7e369fc5b0d56c"
    );
}

#[test]
fn json_text_escapes_what_has_to_be_escaped() {
    let mut req = LlmRequest::new(
        "m",
        vec![
            LlmMessage::system("a\"b\\c\n\u{1}\u{1f}\u{e9}"),
            LlmMessage::assistant(""),
        ],
    );
    req.temperature = Some("0.2".to_string());
    req.max_tokens = Some(256);
    assert_eq!(
        req.to_json(),
        "{\"model\":\"m\",\"messages\":[\
         {\"role\":\"system\",\"content\":\"a\\\"b\\\\c\\n\\u0001\\u001f\u{e9}\"},\
         {\"role\":\"assistant\",\"content\":\"\"}],\
         \"temperature\":0.2,\"max_tokens\":256}"
    );
    assert_eq!(
        req.prompt_hash(),
        "a83d64323a0f7b1896b23e2bf1b106d60c994df33cce1d78877fb93e66adf7a7"
    );
}

#[test]
fn json_text_is_read_back_as_json() {
    let text = "\u{8}\t\n\u{c}\r\u{0}\u{7f}/\"\\\u{2028}\u{1f600}";
    let req = LlmRequest::new(text, vec![LlmMessage::user(text)]);
    let value: serde_json::Value = serde_json::from_str(&req.to_json()).unwrap();
    assert_eq!(value["model"], text);
    assert_eq!(value["messages"][0]["role"], "user");
    assert_eq!(value["messages"][0]["content"], text);
    assert!(value["temperature"].is_null());
}

#[test]
fn every_parameter_changes_the_hash() {
    let base = || LlmRequest::new("m", vec![LlmMessage::user("hi")]);
    let plain = base();
    let mut warm = base();
    warm.temperature = Some("0.2".to_string());
    let mut hot = base();
    hot.temperature = Some("1.0".to_string());
    let mut short = base();
    short.max_tokens = Some(1);
    let mut long = base();
    long.max_tokens = Some(11);
    let mut other_role = base();
    other_role.messages[0].role = LlmRole::Assistant;
    let mut twice = base();
    twice.messages.push(LlmMessage::user("hi"));
    let none = LlmRequest::new("m", vec![]);
    let hashes: Vec<String> = [plain, warm, hot, short, long, other_role, twice, none]
        .iter()
        .map(|r| r.prompt_hash())
        .collect();
    for i in 0..hashes.len() {
        for k in 0..i {
            assert_ne!(hashes[i], hashes[k]);
        }
    }
}

#[test]
fn quotes_cannot_be_moved_between_fields() {
    let a = LlmRequest::new("m\",\"messages\":[", vec![]);
    let b = LlmRequest::new("m", vec![]);
    assert_ne!(a.prompt_hash(), b.prompt_hash());
}

#[test]
fn message_constructors_set_the_role() {
    assert_eq!(LlmMessage::system("a").role, LlmRole::System);
    assert_eq!(LlmMessage::user("b").role, LlmRole::User);
    let said = LlmMessage::assistant("c");
    assert_eq!(said.role, LlmRole::Assistant);
    assert_eq!(said.content, "c");
}

#[test]
fn a_copied_request_has_the_same_hash() {
    let mut req = LlmRequest::new("m", vec![LlmMessage::system("a"), LlmMessage::user("b")]);
    req.temperature = Some("0.7".to_string());
    req.max_tokens = Some(9);
    let copy = req.clone();
    assert_eq!(copy.to_json(), req.to_json());
    assert_eq!(copy.prompt_hash(), req.prompt_hash());
}

#[test]
fn a_temperature_that_is_no_number_has_its_own_key() {
    let plain = LlmRequest::new("m", vec![LlmMessage::user("hi")]);
    let hashes: Vec<String> = ["null", "inf", "-inf", "NaN", "", "0.5", "\"0.5\""]
        .iter()
        .map(|text| {
            let mut odd = plain.clone();
            odd.temperature = Some(text.to_string());
            let value: serde_json::Value = serde_json::from_str(&odd.to_json()).unwrap();
            assert!(!value["temperature"].is_null());
            odd.prompt_hash()
        })
        .collect();
    for i in 0..hashes.len() {
        assert_ne!(hashes[i], plain.prompt_hash());
        for k in 0..i {
            assert_ne!(hashes[i], hashes[k]);
        }
    }
}
