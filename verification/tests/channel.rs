use crabclaw::channel::{ChannelManager, ChannelResponse, LoopResult};
use crabclaw::config::AppConfig;
use crabclaw::channel::ChannelKind;
use crabclaw::error::CrabClawError;

#[test]
fn channel_response_to_reply_empty() {
    let r = ChannelResponse::default();
    assert!(r.to_reply().is_none());
}

#[test]
fn channel_response_to_reply_with_immediate() {
    let r = ChannelResponse {
        immediate_output: Some("ok".to_string()),
        ..Default::default()
    };
    assert_eq!(r.to_reply().unwrap(), "ok");
}

#[test]
fn channel_response_to_reply_combined() {
    let r = ChannelResponse {
        immediate_output: Some("cmd output".to_string()),
        assistant_output: Some("model reply".to_string()),
        error: None,
    };
    assert_eq!(r.to_reply().unwrap(), "cmd output\n\nmodel reply");
}

#[test]
fn channel_response_to_reply_with_error() {
    let r = ChannelResponse {
        error: Some("something broke".to_string()),
        ..Default::default()
    };
    let reply = r.to_reply().unwrap();
    assert!(reply.contains("something broke"));
    assert_eq!(reply, "Error: something broke");
}

#[test]
fn channel_response_keeps_empty_outputs() {
    let r = ChannelResponse {
        immediate_output: Some(String::new()),
        assistant_output: None,
        error: Some("e".to_string()),
    };
    assert_eq!(r.to_reply().unwrap(), "\n\nError: e");
}

#[test]
fn loop_result_to_reply_combines_parts() {
    let result = LoopResult {
        immediate_output: Some("hello".to_string()),
        assistant_output: Some("world".to_string()),
        ..Default::default()
    };
    let reply = result.to_reply().unwrap();
    assert!(reply.contains("hello"));
    assert!(reply.contains("world"));
}

#[test]
fn loop_result_to_reply_none_when_empty() {
    let result = LoopResult::default();
    assert!(result.to_reply().is_none());
}

#[test]
fn loop_result_skips_empty_outputs() {
    let result = LoopResult {
        immediate_output: Some(String::new()),
        assistant_output: Some("x".to_string()),
        ..Default::default()
    };
    assert_eq!(result.to_reply().unwrap(), "x");
}

fn test_config(telegram_token: Option<&str>) -> AppConfig {
    AppConfig {
        profile: "test".to_string(),
        api_key: "key".to_string(),
        api_base: "https://api.example.com".to_string(),
        model: "test-model".to_string(),
        system_prompt: None,
        telegram_token: telegram_token.map(String::from),
        telegram_allow_from: vec![],
        telegram_allow_chats: vec![],
        telegram_proxy: None,
    }
}

#[test]
fn no_channels_when_token_missing() {
    let config = test_config(None);
    let mgr = ChannelManager::new(&config);
    assert!(mgr.enabled_channels().is_empty());
    assert!(!mgr.has_channels());
}

#[test]
fn telegram_registered_when_token_set() {
    let config = test_config(Some("test-token"));
    let mgr = ChannelManager::new(&config);
    assert_eq!(mgr.enabled_channels(), vec!["telegram"]);
}

#[test]
fn telegram_channel_response_to_reply_with_error() {
    let r = ChannelResponse {
        immediate_output: None,
        assistant_output: None,
        error: Some("something broke".to_string()),
    };
    let reply = r.to_reply().unwrap();
    assert!(reply.contains("something broke"));
    assert_eq!(reply, "Error: something broke");
}

#[test]
fn serving_runs_the_first_channel_or_fails() {
    let mut config = AppConfig {
        profile: "p".to_string(),
        api_key: String::new(),
        api_base: String::new(),
        model: String::new(),
        system_prompt: None,
        telegram_token: None,
        telegram_allow_from: vec![],
        telegram_allow_chats: vec![],
        telegram_proxy: None,
    };
    match ChannelManager::new(&config).first_channel() {
        Err(CrabClawError::Config(m)) => assert_eq!(m, "no channels enabled; set TELEGRAM_TOKEN to enable Telegram"),
        other => panic!("expected a configuration error, got {other:?}"),
    }
    config.telegram_token = Some("t".to_string());
    assert!(matches!(ChannelManager::new(&config).first_channel(), Ok(ChannelKind::Telegram)));
}
