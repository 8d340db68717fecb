//! Configuration: the agent's settings, the API keys and the storage path.
//!
//! The settings are read from `summa.toml`; the API keys may be overridden
//! from the environment.

use vstd::prelude::*;
use vstd::string::*;

verus! {

/// Default persona for the LLM agent
pub const DEFAULT_PERSONA: &'static str =
    "You are a senior research assistant specializing in technical synthesis.";

/// Default prompt for summarisation
pub const DEFAULT_PROMPT: &'static str =
    "Can you provide a comprehensive summary of the given text? The summary should cover all the key points and main ideas presented in the original text, while also condensing the information into a concise and easy-to-understand format. Please ensure that the summary includes relevant details and examples that support the main ideas, while avoiding any unnecessary information or repetition. The length of the summary should be appropriate for the length and complexity of the original text, providing a clear and accurate overview without omitting any important information.";

/// The name of the directory that holds the configuration and of the one
/// that is used when no home is known.
pub const APP_DIR: &'static str = "summa";

/// The name of the configuration file.
pub const CONFIG_FILE: &'static str = "summa.toml";

/// What went wrong with the configuration. Each variant holds the text of
/// the failure, or the provider for which a key is missing.
#[derive(Debug, Clone, PartialEq, Eq)]
pub enum ConfigError {
    /// The configuration file could not be read or written.
    ReadError(String),
    /// The configuration file is not valid.
    ParseError(String),
    /// The configuration could not be written out.
    SerializeError(String),
    /// No API key is set for this provider.
    MissingApiKey(String),
}

/// LLM provider configuration
#[derive(Debug, Clone, PartialEq, Eq)]
pub struct AgentConfig {
    /// LLM provider: "gemini" or "openai"
    pub provider: String,
    /// Model identifier (e.g., "gemini-2.0-flash")
    pub model: String,
    /// System persona for the agent
    pub persona: String,
    /// Prompt template for summarisation
    pub prompt: String,
}

/// The provider that is used when none is configured.
pub fn default_provider() -> (name: String)
    ensures
        name@ == "gemini"@,
{
    "gemini".to_owned()
}

/// The model that is used when none is configured.
pub fn default_model() -> (name: String)
    ensures
        name@ == "gemini-2.0-flash"@,
{
    "gemini-2.0-flash".to_owned()
}

/// The persona that is used when none is configured.
pub fn default_persona() -> (text: String)
    ensures
        text@ == DEFAULT_PERSONA@,
{
    DEFAULT_PERSONA.to_owned()
}

/// The prompt that is used when none is configured.
pub fn default_prompt() -> (text: String)
    ensures
        text@ == DEFAULT_PROMPT@,
{
    DEFAULT_PROMPT.to_owned()
}

impl Default for AgentConfig {
    fn default() -> (config: Self)
        ensures
            config.provider@ == "gemini"@,
            config.model@ == "gemini-2.0-flash"@,
            config.persona@ == DEFAULT_PERSONA@,
            config.prompt@ == DEFAULT_PROMPT@,
    {
        Self {
            provider: default_provider(),
            model: default_model(),
            persona: default_persona(),
            prompt: default_prompt(),
        }
    }
}

/// API keys configuration (loaded from environment)
#[derive(Debug, Clone, PartialEq, Eq)]
pub struct ApiConfig {
    pub gemini_key: Option<String>,
    pub openai_key: Option<String>,
}

impl Default for ApiConfig {
    fn default() -> (config: Self)
        ensures
            config.gemini_key is None,
            config.openai_key is None,
    {
        Self { gemini_key: None, openai_key: None }
    }
}

/// Storage paths configuration
#[derive(Debug, Clone, PartialEq, Eq)]
pub struct StorageConfig {
    /// Base path for data storage
    pub path: String,
}

/// The path that `Path::join` of the standard library makes of `base` and
/// `part`, on the platform the program is built for.
pub uninterp spec fn joined_path(base: Seq<char>, part: Seq<char>) -> Seq<char>;

/// `Path::join` of the standard library, on `base` read as a path, the
/// result written out as text, lossily where it is not Unicode.
#[verifier::external_body]
fn join_path(base: &str, part: &str) -> (joined: String)
    ensures
        joined@ == joined_path(base@, part@),
{
    std::path::Path::new(base).join(part).to_string_lossy().into_owned()
}

/// `dirs::config_dir`: the user's configuration directory, as the platform
/// and the environment give it, if they give one.
#[verifier::external_body]
fn user_config_dir() -> Option<String> {
    dirs::config_dir().map(|p| p.to_string_lossy().into_owned())
}

/// `dirs::data_dir`: the user's data directory, as the platform and the
/// environment give it, if they give one.
#[verifier::external_body]
fn user_data_dir() -> Option<String> {
    dirs::data_dir().map(|p| p.to_string_lossy().into_owned())
}

/// `dirs::home_dir`: the user's home directory, as the platform and the
/// environment give it, if they give one.
#[verifier::external_body]
fn user_home_dir() -> Option<String> {
    dirs::home_dir().map(|p| p.to_string_lossy().into_owned())
}

/// The text of an optional string.
pub open spec fn text_of(s: Option<String>) -> Option<Seq<char>> {
    match s {
        Some(t) => Some(t@),
        None => None,
    }
}

/// The home directory, or the current directory where none is known.
pub open spec fn home_or_here(home: Option<Seq<char>>) -> Seq<char> {
    match home {
        Some(h) => h,
        None => "."@,
    }
}

/// The directory of the configuration: `summa` in the user's configuration
/// directory, which is `.config` in the home directory where the platform
/// names none.
pub open spec fn config_dir_in(config: Option<Seq<char>>, home: Option<Seq<char>>) -> Seq<char> {
    joined_path(
        match config {
            Some(c) => c,
            None => joined_path(home_or_here(home), ".config"@),
        },
        APP_DIR@,
    )
}

/// The directory of the data: `summa_data` in the user's data directory,
/// which is `.summa` in the home directory where the platform names none.
pub open spec fn data_path_in(data: Option<Seq<char>>, home: Option<Seq<char>>) -> Seq<char> {
    joined_path(
        match data {
            Some(d) => d,
            None => joined_path(home_or_here(home), ".summa"@),
        },
        "summa_data"@,
    )
}

fn base_dir(named: Option<String>, home: Option<String>, fallback: &str) -> (base: String)
    ensures
        base@ == (match text_of(named) {
            Some(c) => c,
            None => joined_path(home_or_here(text_of(home)), fallback@),
        }),
{
    match named {
        Some(dir) => dir,
        None => {
            let from = match home {
                Some(h) => h,
                None => ".".to_owned(),
            };
            join_path(from.as_str(), fallback)
        },
    }
}

/// The configuration directory, given what the platform names as the
/// user's configuration directory and home directory.
pub fn config_dir_from(config: Option<String>, home: Option<String>) -> (dir: String)
    ensures
        dir@ == config_dir_in(text_of(config), text_of(home)),
{
    let base = base_dir(config, home, ".config");
    join_path(base.as_str(), APP_DIR)
}

/// The data path, given what the platform names as the user's data
/// directory and home directory.
pub fn data_path_from(data: Option<String>, home: Option<String>) -> (path: String)
    ensures
        path@ == data_path_in(text_of(data), text_of(home)),
{
    let base = base_dir(data, home, ".summa");
    join_path(base.as_str(), "summa_data")
}

impl Default for StorageConfig {
    fn default() -> (config: Self)
        ensures
            exists|data: Option<Seq<char>>, home: Option<Seq<char>>|
                config.path@ == #[trigger] data_path_in(data, home),
    {
        let data = user_data_dir();
        let home = user_home_dir();
        let path = data_path_from(data, home);
        assert(path@ == data_path_in(text_of(data), text_of(home)));
        Self { path }
    }
}

/// Root configuration structure
#[derive(Debug, Clone, PartialEq, Eq)]
pub struct Config {
    pub agent: AgentConfig,
    pub api: ApiConfig,
    pub storage: StorageConfig,
}

impl Default for Config {
    fn default() -> (config: Self)
        ensures
            config.agent.provider@ == "gemini"@,
            config.agent.model@ == "gemini-2.0-flash"@,
            config.agent.persona@ == DEFAULT_PERSONA@,
            config.agent.prompt@ == DEFAULT_PROMPT@,
            config.api.gemini_key is None,
            config.api.openai_key is None,
            exists|data: Option<Seq<char>>, home: Option<Seq<char>>|
                config.storage.path@ == #[trigger] data_path_in(data, home),
    {
        Self {
            agent: AgentConfig::default(),
            api: ApiConfig::default(),
            storage: StorageConfig::default(),
        }
    }
}

/// Where the configuration is read from.
#[derive(Debug, Clone, Copy, PartialEq, Eq, Structural)]
pub enum ConfigSource {
    /// `summa.toml` in the current directory
    Local,
    /// The file in the configuration directory
    Default,
    /// The file in the configuration directory, which has to be created first
    CreateDefault,
}

/// The key that the configuration names for `provider`, or the provider
/// whose key is missing.
pub open spec fn key_for(
    provider: Seq<char>,
    gemini_key: Option<Seq<char>>,
    openai_key: Option<Seq<char>>,
) -> Result<Seq<char>, Seq<char>> {
    let key = if provider == "gemini"@ {
        gemini_key
    } else if provider == "openai"@ {
        openai_key
    } else {
        None
    };
    match key {
        Some(k) => Ok(k),
        None => Err(provider),
    }
}

impl Config {
    /// Get the default config directory path
    pub fn config_dir() -> (dir: String)
        ensures
            exists|config: Option<Seq<char>>, home: Option<Seq<char>>|
                dir@ == #[trigger] config_dir_in(config, home),
    {
        let config = user_config_dir();
        let home = user_home_dir();
        let dir = config_dir_from(config, home);
        assert(dir@ == config_dir_in(text_of(config), text_of(home)));
        dir
    }

    /// Get the default config file path
    pub fn config_file_path() -> (path: String)
        ensures
            exists|config: Option<Seq<char>>, home: Option<Seq<char>>|
                path@ == joined_path(#[trigger] config_dir_in(config, home), CONFIG_FILE@),
    {
        let dir = Self::config_dir();
        join_path(dir.as_str(), CONFIG_FILE)
    }

    /// Which file the configuration is read from: the one in the current
    /// directory if there is one, else the one in the configuration
    /// directory, which is created if it is missing.
    pub fn find_config_file(local_exists: bool, default_exists: bool) -> (source: ConfigSource)
        ensures
            source == (if local_exists {
                ConfigSource::Local
            } else if default_exists {
                ConfigSource::Default
            } else {
                ConfigSource::CreateDefault
            }),
    {
        if local_exists {
            ConfigSource::Local
        } else if default_exists {
            ConfigSource::Default
        } else {
            ConfigSource::CreateDefault
        }
    }

    /// The configuration with the API keys that the environment sets in
    /// place of those of the file.
    pub fn with_env_keys(self, gemini: Option<String>, openai: Option<String>) -> (config: Self)
        ensures
            config.agent == self.agent,
            config.storage == self.storage,
            config.api.gemini_key == (if gemini is Some {
                gemini
            } else {
                self.api.gemini_key
            }),
            config.api.openai_key == (if openai is Some {
                openai
            } else {
                self.api.openai_key
            }),
    {
        let gemini_key = match gemini {
            Some(key) => Some(key),
            None => self.api.gemini_key,
        };
        let openai_key = match openai {
            Some(key) => Some(key),
            None => self.api.openai_key,
        };
        Config { agent: self.agent, api: ApiConfig { gemini_key, openai_key }, storage: self.storage }
    }

    /// Get the API key for the configured provider
    pub fn api_key(&self) -> (r: Result<&str, ConfigError>)
        ensures
            match key_for(self.agent.provider@, text_of(self.api.gemini_key), text_of(self.api.openai_key)) {
                Ok(key) => r matches Ok(k) && k@ == key,
                Err(provider) => r matches Err(ConfigError::MissingApiKey(p)) && p@ == provider,
            },
    {
        let key = if self.agent.provider == "gemini".to_owned() {
            &self.api.gemini_key
        } else if self.agent.provider == "openai".to_owned() {
            &self.api.openai_key
        } else {
            &None
        };
        match key {
            Some(k) => Ok(k.as_str()),
            None => Err(ConfigError::MissingApiKey(self.agent.provider.clone())),
        }
    }
}

} // verus!
