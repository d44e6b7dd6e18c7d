use kagi::assistant::{
    accept_reply, chat_config, chat_request, check_chat_status, prompt, AssistantError, ChatChoice,
    ChatReply, MAX_INPUT_BYTES, SYSTEM_PROMPT,
};
use kagi::json::JsonValue;

#[test]
fn prompt_contains_document_and_question() {
    let prompt = prompt("extracted body", "what is it?");
    assert!(prompt.contains("<document>\nextracted body\n</document>"));
    assert!(prompt.contains("<question>\nwhat is it?\n</question>"));
}

#[test]
fn prompt_is_exact() {
    assert_eq!(
        prompt("D", "Q"),
        "Below is the content of one or more web pages, extracted and converted to Markdown.\n\n\
         <document>\nD\n</document>\n\nAnswer this question about the document:\n\n\
         <question>\nQ\n</question>\n\nBase the answer only on the document. Reproduce figures, \
         quotes and code exactly as they appear rather than paraphrasing them. If the document \
         does not contain the answer, say so plainly instead of guessing or falling back on prior \
         knowledge.\n"
    );
}

fn text<'a>(v: Option<&'a JsonValue>) -> Option<&'a str> {
    v.and_then(|v| v.as_text()).map(|s| s.as_str())
}

#[test]
fn chat_request_has_model_budget_and_two_messages() {
    let body = chat_request("test-model", "Where do they disagree?", "# Source [1]\n\nx").expect("fits");
    assert_eq!(text(body.get("model")), Some("test-model"));
    assert_eq!(body.get("stream").and_then(|v| v.as_bool()), Some(false));
    assert_eq!(body.get("max_completion_tokens").and_then(|v| v.as_integer()), Some(8192));
    assert!(body.get("tools").is_none());
    let messages = body.get("messages").expect("messages");
    assert_eq!(messages.as_array().map(|m| m.len()), Some(2));
    assert_eq!(text(messages.at(0).and_then(|m| m.get("role"))), Some("system"));
    assert_eq!(text(messages.at(0).and_then(|m| m.get("content"))), Some(SYSTEM_PROMPT));
    assert_eq!(text(messages.at(1).and_then(|m| m.get("role"))), Some("user"));
    assert_eq!(
        text(messages.at(1).and_then(|m| m.get("content"))),
        Some("Question:\nWhere do they disagree?\n\nSources:\n# Source [1]\n\nx")
    );
}

#[test]
fn oversized_input_is_refused_before_sending() {
    let sources = "a".repeat(MAX_INPUT_BYTES - 2);
    assert!(chat_request("m", "qq", &sources).is_ok());
    assert!(matches!(
        chat_request("m", "qqq", &sources),
        Err(AssistantError::TooLarge { limit: MAX_INPUT_BYTES })
    ));
    let wide = "é".repeat(MAX_INPUT_BYTES / 2);
    assert!(chat_request("m", "", &wide).is_ok());
    assert!(chat_request("m", "x", &wide).is_err());
}

fn reply(finish: Option<&str>, content: Option<&str>, refusal: Option<&str>, tool_calls: usize) -> ChatReply {
    ChatReply {
        choices: vec![ChatChoice {
            finish_reason: finish.map(|s| s.to_string()),
            content: content.map(|s| s.to_string()),
            refusal: refusal.map(|s| s.to_string()),
            tool_calls,
        }],
    }
}

#[test]
fn only_complete_text_replies_are_answers() {
    assert_eq!(
        accept_reply(&reply(Some("stop"), Some(" [1] says '$42'. \n"), None, 0)).expect("answer"),
        "[1] says '$42'."
    );
    assert!(matches!(accept_reply(&reply(Some("stop"), Some(" \n"), None, 0)), Err(AssistantError::EmptyAnswer)));
    assert!(matches!(accept_reply(&reply(Some("stop"), None, None, 0)), Err(AssistantError::EmptyAnswer)));
    match accept_reply(&reply(Some("stop"), None, Some("I cannot help."), 0)) {
        Err(AssistantError::Refused { refusal }) => assert_eq!(refusal, "I cannot help."),
        _ => panic!("expected a refusal"),
    }
    assert!(matches!(
        accept_reply(&reply(Some("content_filter"), Some("partial"), None, 0)),
        Err(AssistantError::Refused { .. })
    ));
    match accept_reply(&reply(Some("length"), Some("cut o"), None, 0)) {
        Err(AssistantError::Incomplete { finish_reason }) => assert_eq!(finish_reason, "length"),
        _ => panic!("expected an incomplete answer"),
    }
    assert!(matches!(accept_reply(&reply(None, Some("text"), None, 0)), Err(AssistantError::Incomplete { .. })));
    assert!(matches!(accept_reply(&reply(Some("stop"), Some("text"), None, 1)), Err(AssistantError::ToolCall)));
    assert!(matches!(accept_reply(&reply(Some("tool_calls"), None, None, 0)), Err(AssistantError::ToolCall)));
    assert!(matches!(accept_reply(&ChatReply { choices: Vec::new() }), Err(AssistantError::NoChoice)));
}

#[test]
fn chat_configuration_needs_a_model() {
    let config = chat_config(Some("http://127.0.0.1:9/v1/".to_string()), Some("test-model".to_string()), None)
        .expect("valid chat configuration");
    assert_eq!(config.endpoint, "http://127.0.0.1:9/v1/chat/completions");
    assert_eq!(config.model, "test-model");
    assert!(config.api_key.is_none());
    let config = chat_config(None, Some("m".to_string()), Some("k".to_string())).expect("valid");
    assert_eq!(config.endpoint, "https://api.openai.com/v1/chat/completions");
    assert_eq!(config.api_key.as_deref(), Some("k"));
    assert!(matches!(chat_config(None, None, None), Err(AssistantError::MissingModel)));
    assert!(matches!(chat_config(None, Some(" ".to_string()), None), Err(AssistantError::MissingModel)));
}

#[test]
fn chat_statuses_must_succeed() {
    assert_eq!(check_chat_status(200, "ok".to_string()).expect("ok"), "ok");
    match check_chat_status(429, "slow down".to_string()) {
        Err(AssistantError::Status { status, body }) => assert_eq!((status, body.as_str()), (429, "slow down")),
        _ => panic!("expected a status error"),
    }
}
