//! Configuration model: AI provider selection with its defaults, the
//! optional overrides, and the machine profile given to the analysis.

use vstd::prelude::*;

verus! {

/// The AI back end that receives the diagnostic prompt.
#[derive(Clone, Copy, Debug, PartialEq, Eq, Structural)]
pub enum AiProvider {
    Claude,
    Ollama,
    LmStudio,
    Vllm,
    OpenAi,
    /// Any other OpenAI-compatible endpoint (set base_url manually)
    OpenAiCompat,
}

/// Base URL used for a provider when none is configured.
pub open spec fn provider_base_url(p: AiProvider) -> Seq<char> {
    match p {
        AiProvider::Claude => "https://api.anthropic.com"@,
        AiProvider::OpenAi => "https://api.openai.com"@,
        AiProvider::Ollama => "http://localhost:11434"@,
        AiProvider::LmStudio => "http://localhost:1234"@,
        AiProvider::Vllm => "http://localhost:8000"@,
        AiProvider::OpenAiCompat => "http://localhost:8080"@,
    }
}

/// Model used for a provider when none is configured (none is preset for
/// Anthropic's API, whose model must come from the configuration).
pub open spec fn provider_model(p: AiProvider) -> Seq<char> {
    match p {
        AiProvider::Claude => ""@,
        AiProvider::OpenAi => "gpt-4o"@,
        AiProvider::Ollama => "llama3.2"@,
        AiProvider::LmStudio | AiProvider::Vllm | AiProvider::OpenAiCompat => "local-model"@,
    }
}

/// Human-readable provider name.
pub open spec fn provider_name(p: AiProvider) -> Seq<char> {
    match p {
        AiProvider::Claude => "Anthropic"@,
        AiProvider::Ollama => "Ollama"@,
        AiProvider::LmStudio => "LM Studio"@,
        AiProvider::Vllm => "vLLM"@,
        AiProvider::OpenAi => "OpenAI"@,
        AiProvider::OpenAiCompat => "OpenAI-compatible"@,
    }
}

impl AiProvider {
    pub fn default_base_url(&self) -> (url: &'static str)
        ensures
            url@ == provider_base_url(*self),
    {
        match self {
            AiProvider::Claude => "https://api.anthropic.com",
            AiProvider::OpenAi => "https://api.openai.com",
            AiProvider::Ollama => "http://localhost:11434",
            AiProvider::LmStudio => "http://localhost:1234",
            AiProvider::Vllm => "http://localhost:8000",
            AiProvider::OpenAiCompat => "http://localhost:8080",
        }
    }

    pub fn default_model(&self) -> (model: &'static str)
        ensures
            model@ == provider_model(*self),
    {
        match self {
            AiProvider::Claude => "",
            AiProvider::OpenAi => "gpt-4o",
            AiProvider::Ollama => "llama3.2",
            AiProvider::LmStudio | AiProvider::Vllm | AiProvider::OpenAiCompat => "local-model",
        }
    }

    /// Every provider but Anthropic's speaks the OpenAI chat-completions protocol.
    pub fn is_openai_compat(&self) -> (b: bool)
        ensures
            b == (*self != AiProvider::Claude),
    {
        match self {
            AiProvider::Claude => false,
            _ => true,
        }
    }

    /// The name shown to the user.
    pub fn display_name(&self) -> (name: &'static str)
        ensures
            name@ == provider_name(*self),
    {
        match self {
            AiProvider::Claude => "Anthropic",
            AiProvider::Ollama => "Ollama",
            AiProvider::LmStudio => "LM Studio",
            AiProvider::Vllm => "vLLM",
            AiProvider::OpenAi => "OpenAI",
            AiProvider::OpenAiCompat => "OpenAI-compatible",
        }
    }
}

impl Default for AiProvider {
    fn default() -> (p: Self)
        ensures
            p == AiProvider::Claude,
    {
        AiProvider::Claude
    }
}

/// AI back end settings; the optional fields override the provider defaults.
#[derive(Clone, Debug)]
pub struct AiConfig {
    pub provider: AiProvider,
    /// Override the default base URL for this provider
    pub base_url: Option<String>,
    /// Override the default model for this provider
    pub model: Option<String>,
    pub api_key: Option<String>,
    /// Endpoint of a local server speaking the OpenAI protocol (Ollama, LM
    /// Studio, ...); empty means unset
    pub local_endpoint: Option<String>,
}

/// The base URL in effect: the configured `base_url`; else, for a provider
/// speaking the OpenAI protocol, a non-empty `local_endpoint`; else the
/// provider's default.
pub open spec fn base_url_of(c: AiConfig) -> Seq<char> {
    match c.base_url {
        Some(u) => u@,
        None => match c.local_endpoint {
            Some(e) => if c.provider != AiProvider::Claude && e@.len() > 0 {
                e@
            } else {
                provider_base_url(c.provider)
            },
            None => provider_base_url(c.provider),
        },
    }
}

/// The model in effect: the configured one, or the provider's default.
pub open spec fn model_of(c: AiConfig) -> Seq<char> {
    match c.model {
        Some(m) => m@,
        None => provider_model(c.provider),
    }
}

/// A configured model is the model in effect, whatever the provider; the
/// provider's default stands only when none is configured.
pub proof fn law_configured_model_wins(c: AiConfig)
    ensures
        c.model matches Some(m) ==> model_of(c) == m@,
        c.model is None ==> model_of(c) == provider_model(c.provider),
{
}

impl AiConfig {
    /// Defaults: the Anthropic provider with its own URL and model, and the API key found in
    /// the environment (`ANTHROPIC_API_KEY`), if any.
    pub fn with_env_api_key(env_api_key: Option<String>) -> (c: Self)
        ensures
            c.provider == AiProvider::Claude,
            c.base_url is None,
            c.model is None,
            c.api_key == env_api_key,
            c.local_endpoint is None,
    {
        AiConfig {
            provider: AiProvider::Claude,
            base_url: None,
            model: None,
            api_key: env_api_key,
            local_endpoint: None,
        }
    }

    /// The base URL in effect (see `base_url_of`).
    pub fn resolved_base_url(&self) -> (url: &str)
        ensures
            url@ == base_url_of(*self),
    {
        match &self.base_url {
            Some(u) => u.as_str(),
            None => match &self.local_endpoint {
                Some(e) => {
                    if self.provider.is_openai_compat() && !e.as_str().is_empty() {
                        e.as_str()
                    } else {
                        self.provider.default_base_url()
                    }
                },
                None => self.provider.default_base_url(),
            },
        }
    }

    /// The configured model, or the provider's default.
    pub fn resolved_model(&self) -> (model: &str)
        ensures
            model@ == model_of(*self),
    {
        match &self.model {
            Some(m) => m.as_str(),
            None => self.provider.default_model(),
        }
    }
}

/// The machine described to the analysis.
#[derive(Clone, Debug)]
pub struct SystemProfile {
    pub cpu: String,
    pub ram_gb: u32,
    pub gpu: String,
    pub drives: Vec<DriveInfo>,
    pub use_cases: Vec<String>,
}

impl Default for SystemProfile {
    fn default() -> (p: Self)
        ensures
            p.cpu@.len() == 0,
            p.ram_gb == 0,
            p.gpu@.len() == 0,
            p.drives@.len() == 0,
            p.use_cases@.len() == 0,
    {
        SystemProfile {
            cpu: String::new(),
            ram_gb: 0,
            gpu: String::new(),
            drives: Vec::new(),
            use_cases: Vec::new(),
        }
    }
}

/// One drive of the machine.
#[derive(Clone, Debug)]
pub struct DriveInfo {
    pub label: String,
    pub drive_letter: String,
    /// "nvme", "sata", or "hdd"
    pub kind: String,
}

/// The whole configuration.
#[derive(Clone, Debug)]
pub struct Config {
    pub refresh_interval_secs: u64,
    pub system_profile: SystemProfile,
    pub ai: AiConfig,
}

/// Refresh interval, in seconds, when the configuration names none.
pub fn default_interval() -> (secs: u64)
    ensures
        secs == 2,
{
    2
}

impl Config {
    /// The configuration used when no file exists: a 2-second refresh, an
    /// empty profile and the AI defaults with the environment's API key.
    pub fn with_env_api_key(env_api_key: Option<String>) -> (c: Self)
        ensures
            c.refresh_interval_secs == 2,
            c.system_profile.cpu@.len() == 0,
            c.system_profile.ram_gb == 0,
            c.system_profile.gpu@.len() == 0,
            c.system_profile.drives@.len() == 0,
            c.system_profile.use_cases@.len() == 0,
            c.ai.provider == AiProvider::Claude,
            c.ai.base_url is None,
            c.ai.model is None,
            c.ai.api_key == env_api_key,
            c.ai.local_endpoint is None,
    {
        Config {
            refresh_interval_secs: default_interval(),
            system_profile: SystemProfile::default(),
            ai: AiConfig::with_env_api_key(env_api_key),
        }
    }

    /// Keys in the environment replace the file's key: `ANTHROPIC_API_KEY`
    /// for Anthropic's provider, `OPENAI_API_KEY` for the providers speaking
    /// the OpenAI protocol; nothing else changes.
    pub fn apply_env_api_keys(self, anthropic_key: Option<String>, openai_key: Option<String>) -> (c: Self)
        ensures
            c.refresh_interval_secs == self.refresh_interval_secs,
            c.system_profile == self.system_profile,
            c.ai.provider == self.ai.provider,
            c.ai.base_url == self.ai.base_url,
            c.ai.model == self.ai.model,
            c.ai.local_endpoint == self.ai.local_endpoint,
            c.ai.api_key == (if self.ai.provider == AiProvider::Claude && anthropic_key is Some {
                anthropic_key
            } else if self.ai.provider != AiProvider::Claude && openai_key is Some {
                openai_key
            } else {
                self.ai.api_key
            }),
    {
        let mut cfg = self;
        if cfg.ai.provider == AiProvider::Claude {
            if let Some(key) = anthropic_key {
                cfg.ai.api_key = Some(key);
            }
        } else if let Some(key) = openai_key {
            cfg.ai.api_key = Some(key);
        }
        cfg
    }
}

} // verus!
