use local_agent::local_provider::is_locally_configured;
use local_agent::local_provider::ApiKeys;
use local_agent::local_provider::LocalDispatcherError;
use local_agent::local_provider::LocalEndpointConfig;
use local_agent::local_provider::LocalEnv;
use local_agent::local_provider::LOCAL_API_KEY_ENV;
use local_agent::local_provider::LOCAL_ENDPOINT_ENV;
use local_agent::local_provider::LOCAL_MODEL_ENV;

#[test]
fn endpoint_config_requires_url_and_model() {
    let mut keys = ApiKeys::default();
    assert!(LocalEndpointConfig::from_api_keys(&keys).is_none());

    keys.local_endpoint = Some("http://localhost:11434/v1".into());
    assert!(
        LocalEndpointConfig::from_api_keys(&keys).is_none(),
        "endpoint without model should not yield a config"
    );

    keys.local_model = Some("qwen2.5-coder:7b".into());
    let cfg = LocalEndpointConfig::from_api_keys(&keys).unwrap();
    assert_eq!(cfg.base_url, "http://localhost:11434/v1");
    assert_eq!(
        cfg.chat_completions_url(),
        "http://localhost:11434/v1/chat/completions"
    );
    assert!(cfg.api_key.is_none());
}

#[test]
fn endpoint_config_strips_trailing_slash() {
    let keys = ApiKeys {
        local_endpoint: Some("http://localhost:11434/v1/".into()),
        local_model: Some("qwen2.5-coder:7b".into()),
        ..Default::default()
    };
    let cfg = LocalEndpointConfig::from_api_keys(&keys).unwrap();
    assert_eq!(cfg.base_url, "http://localhost:11434/v1");
}

#[test]
fn endpoint_config_treats_blank_strings_as_unset() {
    let keys = ApiKeys {
        local_endpoint: Some("   ".into()),
        local_model: Some("model".into()),
        ..Default::default()
    };
    assert!(LocalEndpointConfig::from_api_keys(&keys).is_none());
}

#[test]
fn has_local_endpoint_matches_config_resolution() {
    let mut keys = ApiKeys::default();
    assert!(!keys.has_local_endpoint());
    keys.local_endpoint = Some("http://localhost:11434/v1".into());
    assert!(keys.has_local_endpoint());
    keys.local_endpoint = Some("   ".into());
    assert!(!keys.has_local_endpoint());
}

#[test]
fn build_directly_with_blank_url_returns_none() {
    assert!(LocalEndpointConfig::build(Some(""), Some("m"), None).is_none());
    assert!(LocalEndpointConfig::build(Some("   "), Some("m"), None).is_none());
    assert!(LocalEndpointConfig::build(None, Some("m"), None).is_none());
}

#[test]
fn build_directly_with_blank_model_returns_none() {
    assert!(LocalEndpointConfig::build(Some("http://x"), Some(""), None).is_none());
    assert!(LocalEndpointConfig::build(Some("http://x"), None, None).is_none());
}

#[test]
fn is_locally_configured_reflects_keys() {
    let env = LocalEnv::default();
    let mut keys = ApiKeys::default();
    assert!(!is_locally_configured(&env, &keys));
    keys.local_endpoint = Some("http://localhost:11434/v1".into());
    keys.local_model = Some("m".into());
    assert!(is_locally_configured(&env, &keys));
}

#[test]
fn settings_are_trimmed() {
    let cfg =
        LocalEndpointConfig::build(Some(" \u{3000}http://x//\n"), Some("\tm\u{a0}"), Some(" k "))
            .unwrap();
    assert_eq!(cfg.base_url, "http://x");
    assert_eq!(cfg.model, "m");
    assert_eq!(cfg.api_key, Some("k".to_string()));
    assert_eq!(cfg.chat_completions_url(), "http://x/chat/completions");
}

#[test]
fn blank_api_key_is_no_api_key() {
    let cfg = LocalEndpointConfig::build(Some("http://x"), Some("m"), Some("  ")).unwrap();
    assert_eq!(cfg.api_key, None);
}

#[test]
fn slashes_alone_are_no_endpoint() {
    assert!(LocalEndpointConfig::build(Some(" // "), Some("m"), None).is_none());
    let keys = ApiKeys { local_endpoint: Some("/".into()), ..Default::default() };
    assert!(!keys.has_local_endpoint());
}

#[test]
fn slash_behind_white_space_stays_apart() {
    let cfg = LocalEndpointConfig::build(Some("http://x /"), Some("m"), None).unwrap();
    assert_eq!(cfg.base_url, "http://x ");
}

#[test]
fn environment_overrides_single_settings() {
    let env = LocalEnv { endpoint: Some("http://env/".into()), ..Default::default() };
    let keys = ApiKeys {
        local_endpoint: Some("http://stored".into()),
        local_model: Some("stored-model".into()),
        local_api_key: Some("stored-key".into()),
    };
    let cfg = LocalEndpointConfig::from_env_or_keys(&env, &keys).unwrap();
    assert_eq!(cfg.base_url, "http://env");
    assert_eq!(cfg.model, "stored-model");
    assert_eq!(cfg.api_key, Some("stored-key".to_string()));
    assert!(LocalEndpointConfig::from_env(&env).is_none());
}

#[test]
fn environment_alone_is_enough() {
    let env = LocalEnv {
        endpoint: Some("http://env".into()),
        model: Some("m".into()),
        api_key: Some("k".into()),
    };
    let cfg = LocalEndpointConfig::from_env(&env).unwrap();
    assert_eq!(cfg.base_url, "http://env");
    assert_eq!(cfg.model, "m");
    assert_eq!(cfg.api_key, Some("k".to_string()));
    assert!(is_locally_configured(&env, &ApiKeys::default()));
}

#[test]
fn blank_endpoint_variable_leaves_the_stored_endpoint() {
    let keys = ApiKeys {
        local_endpoint: Some("http://keys/v1".into()),
        local_model: Some("m".into()),
        local_api_key: None,
    };
    for blank in ["", " "] {
        let env = LocalEnv { endpoint: Some(blank.into()), ..Default::default() };
        let cfg = LocalEndpointConfig::from_env_or_keys(&env, &keys).unwrap();
        assert_eq!(cfg.base_url, "http://keys/v1");
        assert_eq!(cfg.model, "m");
        assert_eq!(cfg.api_key, None);
        assert!(is_locally_configured(&env, &keys));
        assert!(LocalEndpointConfig::from_env(&env).is_none());
    }
}

#[test]
fn variable_names() {
    assert_eq!(LOCAL_ENDPOINT_ENV, "WARP_LOCAL_AI_ENDPOINT");
    assert_eq!(LOCAL_MODEL_ENV, "WARP_LOCAL_AI_MODEL");
    assert_eq!(LOCAL_API_KEY_ENV, "WARP_LOCAL_AI_API_KEY");
}

#[test]
fn dispatcher_errors_in_words() {
    assert_eq!(
        LocalDispatcherError::NotConfigured.message(),
        "local endpoint is not configured"
    );
    assert_eq!(
        LocalDispatcherError::NotImplemented.message(),
        "local dispatcher is not yet implemented (Stage 2)"
    );
}
