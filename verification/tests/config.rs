use summa::config::{
    config_dir_from, data_path_from, default_model, default_persona, default_prompt,
    default_provider, AgentConfig, ApiConfig, Config, ConfigError, ConfigSource, StorageConfig,
    DEFAULT_PERSONA, DEFAULT_PROMPT,
};
use std::path::Path;

fn config_with(provider: &str, gemini: Option<&str>, openai: Option<&str>) -> Config {
    Config {
        agent: AgentConfig { provider: provider.to_string(), ..AgentConfig::default() },
        api: ApiConfig {
            gemini_key: gemini.map(String::from),
            openai_key: openai.map(String::from),
        },
        storage: StorageConfig { path: "data".to_string() },
    }
}

#[test]
fn defaults_are_the_documented_ones() {
    assert_eq!(default_provider(), "gemini");
    assert_eq!(default_model(), "gemini-2.0-flash");
    assert_eq!(default_persona(), DEFAULT_PERSONA);
    assert_eq!(default_prompt(), DEFAULT_PROMPT);
    let agent = AgentConfig::default();
    assert_eq!(agent.provider, "gemini");
    assert_eq!(agent.model, "gemini-2.0-flash");
    assert_eq!(agent.persona, DEFAULT_PERSONA);
    assert!(agent.prompt.starts_with("Can you provide a comprehensive summary"));
    assert_eq!(ApiConfig::default(), ApiConfig { gemini_key: None, openai_key: None });
    let config = Config::default();
    assert_eq!(config.agent, agent);
    assert!(config.storage.path.ends_with("summa_data"));
}

#[test]
fn api_key_follows_the_provider() {
    assert_eq!(config_with("gemini", Some("g"), Some("o")).api_key(), Ok("g"));
    assert_eq!(config_with("openai", Some("g"), Some("o")).api_key(), Ok("o"));
}

#[test]
fn missing_api_key_names_the_provider() {
    assert_eq!(
        config_with("gemini", None, Some("o")).api_key(),
        Err(ConfigError::MissingApiKey("gemini".to_string()))
    );
    assert_eq!(
        config_with("openai", Some("g"), None).api_key(),
        Err(ConfigError::MissingApiKey("openai".to_string()))
    );
    assert_eq!(
        config_with("mistral", Some("g"), Some("o")).api_key(),
        Err(ConfigError::MissingApiKey("mistral".to_string()))
    );
}

#[test]
fn environment_keys_override_the_file() {
    let config = config_with("gemini", Some("file"), None);
    let same = config.clone().with_env_keys(None, None);
    assert_eq!(same, config);
    let changed = config.clone().with_env_keys(Some("env".to_string()), Some("o".to_string()));
    assert_eq!(changed.api.gemini_key.as_deref(), Some("env"));
    assert_eq!(changed.api.openai_key.as_deref(), Some("o"));
    assert_eq!(changed.agent, config.agent);
    assert_eq!(changed.storage, config.storage);
}

#[test]
fn config_file_is_looked_for_locally_first() {
    assert_eq!(Config::find_config_file(true, true), ConfigSource::Local);
    assert_eq!(Config::find_config_file(true, false), ConfigSource::Local);
    assert_eq!(Config::find_config_file(false, true), ConfigSource::Default);
    assert_eq!(Config::find_config_file(false, false), ConfigSource::CreateDefault);
}

#[test]
fn config_dir_is_built_from_what_the_platform_names() {
    let named = config_dir_from(Some("/etc/xdg".to_string()), Some("/home/a".to_string()));
    assert_eq!(Path::new(&named), Path::new("/etc/xdg").join("summa"));
    let from_home = config_dir_from(None, Some("/home/a".to_string()));
    assert_eq!(Path::new(&from_home), Path::new("/home/a").join(".config").join("summa"));
    let nowhere = config_dir_from(None, None);
    assert_eq!(Path::new(&nowhere), Path::new(".").join(".config").join("summa"));
}

#[test]
fn data_path_is_built_from_what_the_platform_names() {
    let named = data_path_from(Some("/var/data".to_string()), None);
    assert_eq!(Path::new(&named), Path::new("/var/data").join("summa_data"));
    let from_home = data_path_from(None, Some("/home/a".to_string()));
    assert_eq!(Path::new(&from_home), Path::new("/home/a").join(".summa").join("summa_data"));
    let nowhere = data_path_from(None, None);
    assert_eq!(Path::new(&nowhere), Path::new(".").join(".summa").join("summa_data"));
}

#[test]
fn config_file_lies_in_the_config_dir() {
    let dir = Config::config_dir();
    let file = Config::config_file_path();
    assert_eq!(Path::new(&file), Path::new(&dir).join("summa.toml"));
    assert!(dir.ends_with("summa"));
}
