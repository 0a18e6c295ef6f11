use headroom::config::{default_interval, AiConfig, AiProvider, Config};
use headroom::tui::{
    ai_pane, count_wrapped_lines, help_entries, refresh_due, scrollbar_visible, Action, AiState, Key,
    Tone, ViewState,
};

#[test]
fn provider_defaults() {
    let all = [
        AiProvider::Claude,
        AiProvider::Ollama,
        AiProvider::LmStudio,
        AiProvider::Vllm,
        AiProvider::OpenAi,
        AiProvider::OpenAiCompat,
    ];
    let urls = [
        "https://api.anthropic.com",
        "http://localhost:11434",
        "http://localhost:1234",
        "http://localhost:8000",
        "https://api.openai.com",
        "http://localhost:8080",
    ];
    let models = ["", "llama3.2", "local-model", "local-model", "gpt-4o", "local-model"];
    let names = ["Anthropic", "Ollama", "LM Studio", "vLLM", "OpenAI", "OpenAI-compatible"];
    for i in 0..all.len() {
        assert_eq!(all[i].default_base_url(), urls[i]);
        assert_eq!(all[i].default_model(), models[i]);
        assert_eq!(all[i].display_name(), names[i]);
        assert_eq!(all[i].is_openai_compat(), i != 0);
    }
    assert_eq!(AiProvider::default(), AiProvider::Claude);
}

#[test]
fn overrides_win() {
    let mut ai = AiConfig::with_env_api_key(None);
    assert_eq!(ai.resolved_base_url(), "https://api.anthropic.com");
    ai.base_url = Some("http://proxy".to_string());
    ai.model = Some("m".to_string());
    assert_eq!(ai.resolved_base_url(), "http://proxy");
    assert_eq!(ai.resolved_model(), "m");
    ai.provider = AiProvider::Ollama;
    ai.model = None;
    assert_eq!(ai.resolved_model(), "llama3.2");
}

#[test]
fn default_configuration() {
    let c = Config::with_env_api_key(Some("env".to_string()));
    assert_eq!(c.refresh_interval_secs, 2);
    assert_eq!(default_interval(), 2);
    assert_eq!(c.ai.provider, AiProvider::Claude);
    assert_eq!(c.ai.api_key.as_deref(), Some("env"));
    assert!(c.system_profile.cpu.is_empty() && c.system_profile.use_cases.is_empty());
}

#[test]
fn environment_keys_by_provider() {
    let mut c = Config::with_env_api_key(Some("file".to_string()));
    c = c.apply_env_api_keys(Some("env".to_string()), Some("openai".to_string()));
    assert_eq!(c.ai.api_key.as_deref(), Some("env"));
    c = c.apply_env_api_keys(None, Some("openai".to_string()));
    assert_eq!(c.ai.api_key.as_deref(), Some("env"));
    c.ai.provider = AiProvider::OpenAi;
    c.ai.api_key = Some("file".to_string());
    c = c.apply_env_api_keys(Some("env2".to_string()), None);
    assert_eq!(c.ai.api_key.as_deref(), Some("file"));
    c = c.apply_env_api_keys(Some("env2".to_string()), Some("k1".to_string()));
    assert_eq!(c.ai.api_key.as_deref(), Some("k1"));
    assert_eq!(c.ai.provider, AiProvider::OpenAi);
}

#[test]
fn local_endpoint_sets_local_base_url() {
    let mut ai = AiConfig::with_env_api_key(None);
    ai.local_endpoint = Some("http://10.0.0.5:9000".to_string());
    assert_eq!(ai.resolved_base_url(), "https://api.anthropic.com");
    ai.provider = AiProvider::Ollama;
    assert_eq!(ai.resolved_base_url(), "http://10.0.0.5:9000");
    ai.local_endpoint = Some(String::new());
    assert_eq!(ai.resolved_base_url(), "http://localhost:11434");
    ai.local_endpoint = Some("http://10.0.0.5:9000".to_string());
    ai.base_url = Some("http://explicit".to_string());
    assert_eq!(ai.resolved_base_url(), "http://explicit");
}

fn reference_rows(text: &str, width: usize) -> usize {
    if width == 0 {
        return text.lines().count().max(1);
    }
    text.lines()
        .map(|line| if line.is_empty() { 1 } else { (line.chars().count() + width - 1) / width })
        .sum::<usize>()
        .max(1)
}

#[test]
fn wrapped_rows_match_reference() {
    let texts = [
        "",
        "\n",
        "\n\n",
        "a",
        "abc\n",
        "abc\r\ndef\r\n",
        "a\r",
        "x\ry\n\n\nlong line of text here éé",
        "one\ntwo\r\nthree\rfour\n\r\n",
        "\r\n",
    ];
    for t in texts {
        for w in [0usize, 1, 2, 3, 7, 80] {
            assert_eq!(count_wrapped_lines(t, w), reference_rows(t, w), "text {t:?} width {w}");
        }
    }
    assert_eq!(count_wrapped_lines("abcdefghij\n\nxy", 4), 3 + 1 + 1);
}

#[test]
fn keys_drive_the_view() {
    let mut v = ViewState::new();
    assert_eq!(v.ai_pane_height(), 0);
    assert_eq!(v.on_key(Key::Down, true), Action::Nothing);
    assert_eq!(v.ai_scroll, 0);
    assert_eq!(v.on_key(Key::Char('a'), false), Action::Nothing);
    assert!(matches!(v.ai_state, AiState::Idle));
    assert_eq!(v.on_key(Key::Char('a'), true), Action::StartAnalysis);
    assert!(matches!(v.ai_state, AiState::Loading));
    assert_eq!(v.ai_pane_height(), 12);
    assert_eq!(v.on_key(Key::Char('a'), true), Action::Nothing);
    v.on_ai_result(Ok("done".to_string()));
    assert!(matches!(&v.ai_state, AiState::Done(t) if t == "done"));
    assert_eq!(v.on_key(Key::PageDown, true), Action::Nothing);
    assert_eq!(v.ai_scroll, 10);
    assert_eq!(v.on_key(Key::Up, true), Action::Nothing);
    assert_eq!(v.ai_scroll, 9);
    assert_eq!(v.on_key(Key::PageUp, true), Action::Nothing);
    assert_eq!(v.ai_scroll, 0);
    v.ai_scroll = u16::MAX - 3;
    v.on_key(Key::PageDown, true);
    assert_eq!(v.ai_scroll, u16::MAX);
    assert_eq!(v.on_key(Key::Char('r'), true), Action::Refresh);
    assert_eq!(v.on_key(Key::Char('q'), true), Action::Quit);
    assert_eq!(v.on_key(Key::Esc, true), Action::Quit);
    assert_eq!(v.on_key(Key::Char('Q'), true), Action::Nothing);
    assert_eq!(v.ai_scroll, u16::MAX);
    assert_eq!(v.on_key(Key::Char('a'), true), Action::StartAnalysis);
    assert_eq!(v.ai_scroll, 0);
    v.on_ai_result(Err("timeout".to_string()));
    let (title, content, tone) = ai_pane(&v.ai_state).unwrap();
    assert_eq!((title.as_str(), content.as_str(), tone), (" AI Analysis — error ", "Error: timeout", Tone::Failure));
}

#[test]
fn panes_and_help() {
    assert!(ai_pane(&AiState::Idle).is_none());
    let (t, c, tone) = ai_pane(&AiState::Loading).unwrap();
    assert_eq!((t.as_str(), c.as_str(), tone), (" AI Analysis — analyzing... ", "Waiting on AI response...", Tone::Waiting));
    let labels = |s: &AiState| help_entries(s).into_iter().map(|(k, l)| format!("[{k}]{l}")).collect::<String>();
    assert_eq!(labels(&AiState::Idle), "[r]refresh  [a]AI analysis  [q]quit");
    assert_eq!(labels(&AiState::Done("x".into())), "[r]refresh  [a]AI  [↑↓]scroll  [PgUp/Dn]fast scroll  [q]quit");
    assert!(scrollbar_visible("1\n2\n3\n4", 10, 3));
    assert!(!scrollbar_visible("1\n2\n3", 10, 3));
    assert!(scrollbar_visible("abcdef", 3, 2));
    assert!(refresh_due(2_000_000_000, 2));
    assert!(!refresh_due(1_999_999_999, 2));
}

#[test]
fn wider_terminal_needs_no_more_rows() {
    let text = "a fairly long first line of analysis text\n\nshort\nanother line that wraps";
    let mut previous = count_wrapped_lines(text, 1);
    for width in 2..60 {
        let rows = count_wrapped_lines(text, width);
        assert!(rows <= previous, "width {width}");
        previous = rows;
    }
    assert_eq!(count_wrapped_lines(text, 10), 5 + 1 + 1 + 3);
}
