use headroom::ai::{
    chat_reply_text, chat_request, claude_reply_text, completion_text, strip_thinking, AiError, Json,
};
use headroom::config::{AiConfig, AiProvider};
use serde_json::Value;
type JsonObject = serde_json::Map<String, Value>;

#[test]
fn strip_thinking_examples() {
    assert_eq!(strip_thinking("<think>pondering</think>\n\n  Answer"), "Answer");
    assert_eq!(strip_thinking("no tags here"), "no tags here");
    assert_eq!(strip_thinking("a</think>b</think>c"), "b</think>c");
    assert_eq!(strip_thinking("</think>"), "");
    assert_eq!(strip_thinking("</think>\u{3000}\u{85} x "), "x ");
    assert_eq!(strip_thinking("</thin"), "</thin");
    assert_eq!(strip_thinking(""), "");
}

#[test]
fn strip_thinking_matches_byte_search() {
    let cases = ["ééé</think> ü", "x</think>", "</think></think>", "<think>", "ab</think>\t\ncd"];
    for s in cases {
        let expected = if let Some(end) = s.find("</think>") { s[end + 8..].trim_start() } else { s };
        assert_eq!(strip_thinking(s), expected);
    }
}

#[test]
fn completion_prefers_content() {
    assert_eq!(completion_text(Some("hi".into()), Some("reason".into())), Some("hi".to_string()));
    assert_eq!(completion_text(Some(String::new()), Some("<think>x</think> ok".into())), Some("ok".to_string()));
    assert_eq!(completion_text(None, None), None);
    assert_eq!(completion_text(Some("<think>only</think>   ".into()), None), None);
}

fn to_json(v: &Value) -> Json {
    match v {
        Value::Null => Json::Null,
        Value::Bool(b) => Json::Bool(*b),
        Value::Number(n) => Json::Number(n.to_string()),
        Value::String(s) => Json::Str(s.clone()),
        Value::Array(items) => Json::Array(items.iter().map(to_json).collect()),
        Value::Object(fields) => Json::Object(fields.iter().map(|(k, v)| (k.clone(), to_json(v))).collect()),
    }
}

fn msg(content: Option<&str>, reasoning: Option<&str>) -> Value {
    let mut m = JsonObject::new();
    if let Some(c) = content {
        m.insert("content".to_string(), Value::String(c.to_string()));
    }
    if let Some(r) = reasoning {
        m.insert("reasoning_content".to_string(), Value::String(r.to_string()));
    }
    let mut choice = JsonObject::new();
    choice.insert("message".to_string(), Value::Object(m));
    let mut body = JsonObject::new();
    body.insert("choices".to_string(), Value::Array(vec![Value::Object(choice)]));
    Value::Object(body)
}

fn pretty(v: &Value) -> String {
    serde_json::to_string_pretty(v).unwrap()
}

#[test]
fn chat_reply_handling() {
    let body = msg(Some("The answer"), None);
    assert_eq!(chat_reply_text(AiProvider::Ollama, &to_json(&body), pretty(&body)).unwrap(), "The answer");
    let body = msg(Some(""), Some("<think>hmm</think> Reasoned"));
    assert_eq!(chat_reply_text(AiProvider::Vllm, &to_json(&body), pretty(&body)).unwrap(), "Reasoned");
    let body = msg(None, None);
    match chat_reply_text(AiProvider::LmStudio, &to_json(&body), pretty(&body)) {
        Err(e @ AiError::EmptyResponse(..)) => {
            assert_eq!(e.message(), format!("Empty response from LM Studio. Raw body:\n{}", pretty(&body)));
        }
        other => panic!("unexpected {other:?}"),
    }
    assert_eq!(AiError::ParseFailed(AiProvider::OpenAi).message(), "Failed to parse OpenAI response");
}

#[test]
fn chat_reply_ignores_non_string_fields() {
    let body: Value = serde_json::from_str(
        r#"{"choices":[{"message":{"content":42,"reasoning_content":"</think> from reasoning"}}]}"#,
    )
    .unwrap();
    assert_eq!(chat_reply_text(AiProvider::OpenAi, &to_json(&body), pretty(&body)).unwrap(), "from reasoning");
    let body: Value = serde_json::from_str(r#"{"choices":{"message":{"content":"x"}}}"#).unwrap();
    assert!(matches!(
        chat_reply_text(AiProvider::Ollama, &to_json(&body), pretty(&body)),
        Err(AiError::EmptyResponse(AiProvider::Ollama, _))
    ));
}

#[test]
fn messages_reply_handling() {
    let mut part = JsonObject::new();
    part.insert("text".to_string(), Value::String("Root cause: ...".to_string()));
    let mut body = JsonObject::new();
    body.insert("content".to_string(), Value::Array(vec![Value::Object(part)]));
    assert_eq!(claude_reply_text(&to_json(&Value::Object(body))), "Root cause: ...");
    assert_eq!(claude_reply_text(&Json::Object(vec![])), "No response text");
    let numeric: Value = serde_json::from_str(r#"{"content":[{"text":7}]}"#).unwrap();
    assert_eq!(claude_reply_text(&to_json(&numeric)), "No response text");
    let first_wins = Json::Object(vec![
        ("content".to_string(), Json::Array(vec![Json::Object(vec![("text".to_string(), Json::Str("one".into()))])])),
        ("content".to_string(), Json::Null),
    ]);
    assert_eq!(claude_reply_text(&first_wins), "one");
}

fn expected_body(prompt: &str, model: &str, stream: bool) -> String {
    let mut message = JsonObject::new();
    message.insert("role".to_string(), Value::String("user".to_string()));
    message.insert("content".to_string(), Value::String(prompt.to_string()));
    let mut body = JsonObject::new();
    body.insert("model".to_string(), Value::String(model.to_string()));
    body.insert("max_tokens".to_string(), Value::from(4096));
    body.insert("messages".to_string(), Value::Array(vec![Value::Object(message)]));
    if stream {
        body.insert("stream".to_string(), Value::Bool(false));
    }
    serde_json::to_string(&Value::Object(body)).unwrap()
}

fn pairs(h: &[(String, String)]) -> Vec<(&str, &str)> {
    h.iter().map(|(a, b)| (a.as_str(), b.as_str())).collect()
}

#[test]
fn anthropic_request() {
    let mut ai = AiConfig::with_env_api_key(Some("sk-test".to_string()));
    ai.model = Some("my-model".to_string());
    let prompt = "Line one\n\"quoted\" — and \\ backslash\t tab";
    let req = chat_request(&ai, prompt).unwrap();
    assert_eq!(req.url, "https://api.anthropic.com/v1/messages");
    assert_eq!(
        pairs(&req.headers),
        vec![
            ("x-api-key", "sk-test"),
            ("anthropic-version", "2023-06-01"),
            ("content-type", "application/json")
        ]
    );
    assert_eq!(req.body, expected_body(prompt, "my-model", false));
    ai.base_url = Some("https://proxy.example/anthropic//".to_string());
    let req = chat_request(&ai, prompt).unwrap();
    assert_eq!(req.url, "https://proxy.example/anthropic/v1/messages");
    let missing = AiConfig::with_env_api_key(None);
    let err = chat_request(&missing, "x").unwrap_err();
    assert_eq!(err.message(), "No API key. Set ANTHROPIC_API_KEY in env or ai.api_key in config.toml.");
}

#[test]
fn compatible_request() {
    let ai = AiConfig {
        provider: AiProvider::Ollama,
        base_url: Some("http://box:11434//".to_string()),
        model: None,
        api_key: Some(String::new()),
        local_endpoint: None,
    };
    let req = chat_request(&ai, "hello").unwrap();
    assert_eq!(req.url, "http://box:11434/v1/chat/completions");
    assert_eq!(pairs(&req.headers), vec![("content-type", "application/json")]);
    assert_eq!(req.body, expected_body("hello", "llama3.2", true));

    let ai = AiConfig {
        provider: AiProvider::OpenAi,
        base_url: None,
        model: None,
        api_key: Some("k".to_string()),
        local_endpoint: None,
    };
    let req = chat_request(&ai, "p").unwrap();
    assert_eq!(req.url, "https://api.openai.com/v1/chat/completions");
    assert_eq!(pairs(&req.headers), vec![("content-type", "application/json"), ("Authorization", "Bearer k")]);
    assert_eq!(req.body, expected_body("p", "gpt-4o", true));
}

#[test]
fn error_messages() {
    assert_eq!(
        AiError::RequestFailed(AiProvider::Ollama, "http://localhost:11434/v1/chat/completions".into()).message(),
        "Ollama request to http://localhost:11434/v1/chat/completions failed — is it running?"
    );
    assert_eq!(
        AiError::ApiStatus(AiProvider::Vllm, "500 Internal Server Error".into(), "boom".into()).message(),
        "vLLM API error 500 Internal Server Error: boom"
    );
    assert_eq!(AiError::ParseFailed(AiProvider::OpenAiCompat).message(), "Failed to parse OpenAI-compatible response");
}

#[test]
fn reply_read_by_provider_protocol() {
    let body = msg(Some("compat answer"), None);
    let json = to_json(&body);
    assert_eq!(headroom::ai::reply_text(AiProvider::OpenAiCompat, &json, pretty(&body)).unwrap(), "compat answer");
    assert_eq!(headroom::ai::reply_text(AiProvider::Claude, &json, pretty(&body)).unwrap(), "No response text");
}

#[test]
fn local_endpoint_request() {
    let ai = AiConfig {
        provider: AiProvider::Ollama,
        base_url: None,
        model: None,
        api_key: None,
        local_endpoint: Some("http://10.0.0.5:9000/".to_string()),
    };
    let req = chat_request(&ai, "hi").unwrap();
    assert_eq!(req.url, "http://10.0.0.5:9000/v1/chat/completions");
    assert_eq!(pairs(&req.headers), vec![("content-type", "application/json")]);
}
