use aiproxy_core::config::CacheCfg;
use aiproxy_core::config::Config;
use aiproxy_core::config::FsyncPolicy;
use aiproxy_core::config::HttpCfg;
use aiproxy_core::config::Providers;
use aiproxy_core::config::RoutingCfg;
use aiproxy_core::config::RoutingRule;
use aiproxy_core::config::TranscriptCfg;
use aiproxy_core::error::AiProxyError;
use aiproxy_core::provider::Capability;
use aiproxy_core::provider_factory::EnvSnapshot;
use aiproxy_core::provider_factory::ProviderRegistry;
use aiproxy_core::provider_factory::validate_openai_key;
use aiproxy_core::provider_factory::validate_openrouter_key;
use aiproxy_core::router::RoutingResolver;

fn cfg_with_rules(default: &str, rules: Vec<(&str, &str)>) -> Config {
    let compiled_rules = rules
        .into_iter()
        .map(|(model, provider)| RoutingRule { model: model.into(), provider: provider.into() })
        .collect::<Vec<_>>();
    Config {
        providers: Providers { openai: None, anthropic: None, openrouter: None },
        cache: CacheCfg { path: ":memory:".into(), ttl_seconds: 60 },
        transcript: TranscriptCfg {
            dir: ".tx".into(),
            segment_mb: 64,
            fsync: FsyncPolicy::Commit,
            redact_builtin: true,
        },
        routing: RoutingCfg { default: default.into(), rules: compiled_rules },
        http: HttpCfg::default(),
    }
}

fn minimal_cfg() -> Config {
    cfg_with_rules("null", vec![])
}

#[test]
fn builds_registry_with_null() {
    let reg = ProviderRegistry::from_config(&minimal_cfg(), &EnvSnapshot::empty()).unwrap();
    assert!(reg.chat("null").is_some());
    assert!(reg.embed("null").is_some());
    let caps = reg.caps("null").unwrap();
    assert!(caps.contains(&Capability::Chat));
    assert!(caps.contains(&Capability::Embed));
}

#[test]
fn missing_provider_returns_none() {
    let reg = ProviderRegistry::from_config(&minimal_cfg(), &EnvSnapshot::empty()).unwrap();
    assert!(reg.chat("missing").is_none());
    assert!(reg.embed("missing").is_none());
    assert!(reg.caps("missing").is_none());
}

#[test]
fn invalid_openai_key_rejected_and_redacted() {
    let res = validate_openai_key("badkey");
    match res {
        Err(AiProxyError::Validation(msg)) => {
            assert!(msg.contains("OPENAI_API_KEY looks invalid"), "msg: {}", msg);
            assert!(msg.contains("***"), "msg: {}", msg);
            assert!(!msg.contains("badkey"), "should be redacted: {}", msg);
        }
        _ => panic!("expected Validation error"),
    }
}

#[test]
fn invalid_openrouter_key_rejected_and_redacted() {
    let res = validate_openrouter_key("or-weak");
    match res {
        Err(AiProxyError::Validation(msg)) => {
            assert!(msg.contains("OPENROUTER_API_KEY looks invalid"), "msg: {}", msg);
            assert!(msg.contains("***"), "msg: {}", msg);
            assert!(!msg.contains("or-weak"), "should be redacted: {}", msg);
        }
        _ => panic!("expected Validation error"),
    }
}

#[test]
fn registry_rejects_bad_env_key_with_redaction() {
    // A registry construction that reads a bad key from the environment
    // fails with a redacted validation message.
    let cfg = cfg_with_rules("openai", vec![]);
    let mut env = EnvSnapshot::empty();
    env.openai_api_key = Some("badkey".to_string());
    match ProviderRegistry::from_config(&cfg, &env) {
        Err(AiProxyError::Validation(msg)) => {
            assert!(msg.contains("***dkey"), "msg: {}", msg);
            assert!(!msg.contains("badkey"), "msg: {}", msg);
        }
        Err(..) => panic!("expected Validation error"),
        Ok(..) => panic!("expected construction to fail"),
    }
}

#[test]
fn registry_enables_openai_for_good_key() {
    let mut env = EnvSnapshot::empty();
    env.openai_api_key = Some(format!("sk-{}", "a".repeat(48)));
    env.openai_base = Some("http://localhost:1".to_string());
    let reg = ProviderRegistry::from_config(&minimal_cfg(), &env).unwrap();
    let entry = reg.chat("openai").expect("openai registered");
    assert_eq!(entry.base, "http://localhost:1");
    assert!(entry.chat && entry.embed);
}

#[test]
fn registry_skips_unreferenced_project_key() {
    // A project-scoped key without a project identifier skips OpenAI when
    // routing does not reference it, and fails construction when it does.
    let mut env = EnvSnapshot::empty();
    env.openai_api_key = Some(format!("sk-proj-{}", "a".repeat(40)));
    let reg = ProviderRegistry::from_config(&minimal_cfg(), &env).unwrap();
    assert!(reg.chat("openai").is_none());

    let cfg = cfg_with_rules("openai", vec![]);
    match ProviderRegistry::from_config(&cfg, &env) {
        Err(AiProxyError::Validation(msg)) => {
            assert!(msg.contains("OPENAI_PROJECT"), "msg: {}", msg);
        }
        Err(..) => panic!("expected Validation error"),
        Ok(..) => panic!("expected construction to fail"),
    }
}

#[test]
fn picks_rule_then_fallback_default() {
    let cfg = cfg_with_rules("null", vec![("^gpt-.*", "null")]);
    let reg = ProviderRegistry::from_config(&cfg, &EnvSnapshot::empty())
        .expect("should build provider registry");
    let router = RoutingResolver::new(&cfg).expect("should build routing resolver");

    let chat = router.select_chat(&reg, "gpt-4o").expect("chat provider should be found");
    assert_eq!(chat.name, "null");

    let emb = router
        .select_embed(&reg, "text-embedding-3-small")
        .expect("embed provider should be found");
    assert_eq!(emb.name, "null");
}

#[test]
fn missing_provider_yields_validation_error() {
    let cfg = cfg_with_rules("missing", vec![]);
    let reg = ProviderRegistry::from_config(&cfg, &EnvSnapshot::empty())
        .expect("should build provider registry");
    let router = RoutingResolver::new(&cfg).expect("should build routing resolver");
    let err = match router.select_chat(&reg, "gpt-4o") {
        Err(e) => e,
        Ok(..) => panic!("expected a Validation error"),
    };
    match err {
        AiProxyError::Validation(msg) => assert!(msg.contains("missing")),
        other => panic!("expected Validation error, got {other:?}"),
    }
}

#[test]
fn invalid_regex_yields_validation_error() {
    let cfg = cfg_with_rules("null", vec![("(", "null")]);
    let err = match RoutingResolver::new(&cfg) {
        Err(e) => e,
        Ok(..) => panic!("expected a Validation error"),
    };
    match err {
        AiProxyError::Validation(msg) => assert!(msg.contains("invalid routing regex")),
        other => panic!("expected Validation error, got {other:?}"),
    }
}

#[test]
fn rule_points_to_missing_provider() {
    let cfg = cfg_with_rules("null", vec![("^gpt-.*", "missing")]);
    let reg = ProviderRegistry::from_config(&cfg, &EnvSnapshot::empty())
        .expect("should build provider registry");
    let router = RoutingResolver::new(&cfg).expect("should build routing resolver");
    let err = match router.select_chat(&reg, "gpt-4o") {
        Err(e) => e,
        Ok(..) => panic!("expected a Validation error"),
    };
    match err {
        AiProxyError::Validation(msg) => assert!(msg.contains("missing")),
        other => panic!("expected Validation error, got {other:?}"),
    }
}

#[test]
fn first_match_wins_rule_order() {
    // Two rules could match; the first in the list wins over the later,
    // more specific one.
    let cfg = cfg_with_rules("null", vec![("^gpt-.*", "null"), ("^gpt-4o$", "missing")]);
    let reg = ProviderRegistry::from_config(&cfg, &EnvSnapshot::empty())
        .expect("should build provider registry");
    let router = RoutingResolver::new(&cfg).expect("should build routing resolver");
    let chat = router.select_chat(&reg, "gpt-4o").expect("chat provider should be found");
    assert_eq!(chat.name, "null");
}
