use crabclaw::config::{
    normalize_profile_token, parse_dotenv, resolve_config, strip_quotes, CliConfigOverrides,
    VarMap,
};
use crabclaw::error::CrabClawError;

#[test]
fn resolves_config_with_deterministic_precedence() {
    let mut env_vars = VarMap::new();
    env_vars.insert("OPENCLAW_API_KEY".to_string(), "env-base-key".to_string());
    env_vars.insert(
        "CRABCLAW_PROFILE_DEV_OPENCLAW_BASE_URL".to_string(),
        "https://env-profile.example.com".to_string(),
    );
    env_vars.insert("CRABCLAW_MODEL".to_string(), "env-base-model".to_string());

    let mut dotenv_vars = VarMap::new();
    dotenv_vars.insert("OPENCLAW_API_KEY".to_string(), "dotenv-base-key".to_string());
    dotenv_vars.insert(
        "CRABCLAW_PROFILE_DEV_OPENCLAW_API_KEY".to_string(),
        "dotenv-profile-key".to_string(),
    );
    dotenv_vars.insert(
        "OPENCLAW_BASE_URL".to_string(),
        "https://dotenv-base.example.com".to_string(),
    );
    dotenv_vars.insert(
        "CRABCLAW_PROFILE_DEV_CRABCLAW_MODEL".to_string(),
        "dotenv-profile-model".to_string(),
    );

    let overrides = CliConfigOverrides {
        api_key: Some("cli-key".to_string()),
        api_base: None,
        model: Some("cli-model".to_string()),
        system_prompt: None,
    };

    let config =
        resolve_config(Some("dev"), &overrides, &env_vars, &dotenv_vars).expect("must resolve");

    assert_eq!(config.profile, "dev");
    assert_eq!(config.api_key, "cli-key");
    assert_eq!(config.api_base, "https://env-profile.example.com");
    assert_eq!(config.model, "cli-model");
}

#[test]
fn errors_when_api_key_missing() {
    let env_vars = VarMap::new();
    let dotenv_vars = VarMap::new();
    let overrides = CliConfigOverrides::default();

    let err = resolve_config(None, &overrides, &env_vars, &dotenv_vars).expect_err("must fail");
    match err {
        CrabClawError::Config(msg) => assert!(msg.contains("OPENCLAW_API_KEY")),
        other => panic!("unexpected error: {}", other.message()),
    }
}

#[test]
fn default_profile_used_when_none() {
    let mut env_vars = VarMap::new();
    env_vars.insert("OPENCLAW_API_KEY".to_string(), "key".to_string());
    let overrides = CliConfigOverrides::default();

    let config = resolve_config(None, &overrides, &env_vars, &VarMap::new()).unwrap();
    assert_eq!(config.profile, "default");
}

#[test]
fn defaults_for_api_base_and_model() {
    let mut env_vars = VarMap::new();
    env_vars.insert("OPENCLAW_API_KEY".to_string(), "key".to_string());
    let overrides = CliConfigOverrides::default();

    let config = resolve_config(None, &overrides, &env_vars, &VarMap::new()).unwrap();
    assert_eq!(config.api_base, "https://api.example.com");
    assert_eq!(config.model, "openclaw/default");
}

#[test]
fn system_prompt_resolved_from_env() {
    let mut env_vars = VarMap::new();
    env_vars.insert("OPENCLAW_API_KEY".to_string(), "key".to_string());
    env_vars.insert("CRABCLAW_SYSTEM_PROMPT".to_string(), "Be concise".to_string());
    let overrides = CliConfigOverrides::default();

    let config = resolve_config(None, &overrides, &env_vars, &VarMap::new()).unwrap();
    assert_eq!(config.system_prompt.as_deref(), Some("Be concise"));
}

#[test]
fn system_prompt_cli_overrides_env() {
    let mut env_vars = VarMap::new();
    env_vars.insert("OPENCLAW_API_KEY".to_string(), "key".to_string());
    env_vars.insert("CRABCLAW_SYSTEM_PROMPT".to_string(), "from env".to_string());
    let overrides = CliConfigOverrides {
        system_prompt: Some("from cli".to_string()),
        ..Default::default()
    };

    let config = resolve_config(None, &overrides, &env_vars, &VarMap::new()).unwrap();
    assert_eq!(config.system_prompt.as_deref(), Some("from cli"));
}

#[test]
fn system_prompt_none_when_unset() {
    let mut env_vars = VarMap::new();
    env_vars.insert("OPENCLAW_API_KEY".to_string(), "key".to_string());
    let overrides = CliConfigOverrides::default();

    let config = resolve_config(None, &overrides, &env_vars, &VarMap::new()).unwrap();
    assert!(config.system_prompt.is_none());
}

#[test]
fn parse_dotenv_basic_kv() {
    let content = "KEY1=value1\nKEY2=value2\n";
    let map = parse_dotenv(content);
    assert_eq!(map.get("KEY1").unwrap(), "value1");
    assert_eq!(map.get("KEY2").unwrap(), "value2");
}

#[test]
fn parse_dotenv_with_comments_and_export() {
    let content = "# comment line\nexport MY_KEY=my_value\nEMPTY=\n";
    let map = parse_dotenv(content);
    assert_eq!(map.get("MY_KEY").unwrap(), "my_value");
    assert!(map.contains_key("EMPTY"));
}

#[test]
fn strip_quotes_removes_double_and_single() {
    assert_eq!(strip_quotes("\"hello\""), "hello");
    assert_eq!(strip_quotes("'world'"), "world");
    assert_eq!(strip_quotes("noquotes"), "noquotes");
    assert_eq!(strip_quotes("\""), "\"");
}

#[test]
fn parse_dotenv_later_line_wins_and_quotes_are_removed() {
    let map = parse_dotenv("A=1\r\n  A = \"two\" \nB='x'\nno_equals_line\n=novalue\n");
    assert_eq!(map.get("A").unwrap(), "two");
    assert_eq!(map.get("B").unwrap(), "x");
    assert!(!map.contains_key("no_equals_line"));
    assert!(!map.contains_key(""));
}

#[test]
fn profile_token_normalization() {
    assert_eq!(normalize_profile_token("dev-1.x"), "DEV_1_X");
    assert_eq!(normalize_profile_token(""), "DEFAULT");
}

#[test]
fn telegram_settings_and_allow_lists() {
    let mut env_vars = VarMap::new();
    env_vars.insert("OPENCLAW_API_KEY".to_string(), "key".to_string());
    env_vars.insert("BUB_TELEGRAM_TOKEN".to_string(), " tok ".to_string());
    let mut dotenv_vars = VarMap::new();
    dotenv_vars.insert("BUB_TELEGRAM_ALLOW_FROM".to_string(), " 1, ,alice ,".to_string());
    let config =
        resolve_config(Some(" work "), &CliConfigOverrides::default(), &env_vars, &dotenv_vars)
            .unwrap();
    assert_eq!(config.profile, "work");
    assert!(config.telegram_enabled());
    assert_eq!(config.telegram_token.as_deref(), Some("tok"));
    assert_eq!(config.telegram_allow_from, vec!["1", "alice"]);
    assert!(config.telegram_allow_chats.is_empty());
    assert!(config.telegram_proxy.is_none());
}

#[test]
fn blank_cli_value_falls_through_to_environment() {
    let mut env_vars = VarMap::new();
    env_vars.insert("OPENCLAW_API_KEY".to_string(), "env-key".to_string());
    let overrides = CliConfigOverrides {
        api_key: Some("   ".to_string()),
        ..Default::default()
    };
    let config = resolve_config(None, &overrides, &env_vars, &VarMap::new()).unwrap();
    assert_eq!(config.api_key, "env-key");
}

#[test]
fn config_error_display() {
    let err = CrabClawError::Config("missing key".to_string());
    assert_eq!(err.message(), "config error: missing key");
}

#[test]
fn network_error_display() {
    let err = CrabClawError::Network("timeout".to_string());
    assert_eq!(err.message(), "network error: timeout");
}

#[test]
fn auth_error_display() {
    let err = CrabClawError::Auth("invalid token".to_string());
    assert_eq!(err.message(), "auth error: invalid token");
}

#[test]
fn api_error_display() {
    let err = CrabClawError::Api("rate limited".to_string());
    assert_eq!(err.message(), "api error: rate limited");
}
