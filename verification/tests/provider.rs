use std::path::PathBuf;

use tonemate::provider::{
    choice_notice, choose_provider, env_or, labelled, local_warm, translation_outcome, warm_outcome,
    Provider, MAX_TOKENS,
};
use tonemate::settings::Stored;

#[test]
fn kimi_with_a_key_uses_kimi() {
    let provider = choose_provider("kimi", "sk-test123", "", "", "");
    match &provider {
        Provider::Kimi(key) => assert_eq!(key, "sk-test123"),
        _ => panic!("expected Kimi variant"),
    }
    assert_eq!(provider.label(), "kimi");
}

#[test]
fn kimi_without_a_key_falls_back_to_bedrock() {
    let provider = choose_provider("kimi", "", "", "", "");
    match provider {
        Provider::Bedrock(_) => (),
        _ => panic!("expected Bedrock fallback"),
    }
    assert_eq!(provider.label(), "bedrock");
}

#[test]
fn deepseek_with_a_key_uses_deepseek() {
    let provider = choose_provider("deepseek", "", "sk-test456", "", "");
    match &provider {
        Provider::DeepSeek(key) => assert_eq!(key, "sk-test456"),
        _ => panic!("expected DeepSeek variant"),
    }
    assert_eq!(provider.label(), "deepseek");
}

#[test]
fn deepseek_without_a_key_falls_back_to_bedrock() {
    let provider = choose_provider("deepseek", "", "", "", "");
    match provider {
        Provider::Bedrock(_) => (),
        _ => panic!("expected Bedrock fallback"),
    }
    assert_eq!(provider.label(), "bedrock");
}

#[test]
fn qwen_with_a_key_uses_qwen() {
    let provider = choose_provider("qwen", "", "", "sk-test789", "");
    match &provider {
        Provider::Qwen(key) => assert_eq!(key, "sk-test789"),
        _ => panic!("expected Qwen variant"),
    }
    assert_eq!(provider.label(), "qwen");
}

#[test]
fn qwen_without_a_key_falls_back_to_bedrock() {
    let provider = choose_provider("qwen", "", "", "", "");
    match provider {
        Provider::Bedrock(_) => (),
        _ => panic!("expected Bedrock fallback"),
    }
    assert_eq!(provider.label(), "bedrock");
}

#[test]
fn an_unknown_provider_name_uses_bedrock() {
    let provider = choose_provider("openai", "", "", "", "");
    match provider {
        Provider::Bedrock(_) => (),
        _ => panic!("expected Bedrock fallback"),
    }
    assert_eq!(provider.label(), "bedrock");
}

#[test]
fn the_aws_profile_rides_along_with_bedrock() {
    let provider = choose_provider("bedrock", "", "", "", "corp");
    match provider {
        Provider::Bedrock(profile) => assert_eq!(profile, "corp"),
        _ => panic!("expected Bedrock with the stored profile"),
    }
}

#[test]
fn local_is_a_provider_with_a_label() {
    let provider = Provider::Local {
        model: PathBuf::new(),
        binary: PathBuf::new(),
    };
    assert_eq!(provider.label(), "local");
}

#[test]
fn the_local_choice_carries_the_paths_it_was_given() {
    let provider = choose_provider("local", "", "", "", "");
    assert_eq!(provider.label(), "bedrock");

    let stored = Stored {
        accent: "graphite".to_string(),
        provider: "local".to_string(),
        kimi_api_key: String::new(),
        deepseek_api_key: String::new(),
        qwen_api_key: String::new(),
        aws_profile: String::new(),
    };
    let provider = Provider::from_settings(&stored, PathBuf::from("/m.gguf"), PathBuf::from("/bin/llama-server"));
    match provider {
        Provider::Local { model, binary } => {
            assert_eq!(model, PathBuf::from("/m.gguf"));
            assert_eq!(binary, PathBuf::from("/bin/llama-server"));
        }
        _ => panic!("expected Local"),
    }
}

#[test]
fn the_environment_picks_the_provider_and_its_key() {
    let provider = Provider::from_env(None, None, None, Some("sk-env".to_string()), None, None);
    match provider {
        Provider::DeepSeek(key) => assert_eq!(key, "sk-env"),
        _ => panic!("expected DeepSeek"),
    }
    let provider = Provider::from_env(
        None,
        None,
        Some("sk-kimi".to_string()),
        Some("sk-env".to_string()),
        None,
        None,
    );
    assert_eq!(provider.label(), "kimi");
    let provider = Provider::from_env(None, None, Some(String::new()), None, None, Some("corp".to_string()));
    match provider {
        Provider::Bedrock(profile) => assert_eq!(profile, "corp"),
        _ => panic!("expected Bedrock"),
    }
    let provider = Provider::from_env(
        Some("/models/m.gguf".to_string()),
        None,
        Some("sk-kimi".to_string()),
        None,
        None,
        None,
    );
    match provider {
        Provider::Local { model, binary } => {
            assert_eq!(model, PathBuf::from("/models/m.gguf"));
            assert_eq!(binary, PathBuf::from("llama-server"));
        }
        _ => panic!("expected Local"),
    }
}

#[test]
fn a_fallback_is_announced_only_when_a_key_is_missing() {
    assert!(choice_notice("kimi", "", "", "").is_some());
    assert!(choice_notice("kimi", "sk", "", "").is_none());
    assert!(choice_notice("bedrock", "", "", "").is_none());
    assert!(choice_notice("qwen", "", "", "").unwrap().contains("qwen"));
}

#[test]
fn an_unset_variable_takes_its_default() {
    assert_eq!(env_or(None, "fallback"), "fallback");
    assert_eq!(env_or(Some("set".to_string()), "fallback"), "set");
}

#[test]
fn errors_carry_the_provider_label() {
    let provider = choose_provider("kimi", "sk", "", "", "");
    assert_eq!(labelled(&provider, "boom"), "kimi: boom");
    assert_eq!(
        translation_outcome(&provider, Err("boom".to_string())),
        Err("kimi: boom".to_string())
    );
    assert_eq!(translation_outcome(&provider, Ok(())), Ok(()));
    assert!(warm_outcome(&provider, Ok(())).is_ok());
    assert!(warm_outcome(&provider, Err("model returned no text (finish_reason: length)".to_string())).is_ok());
    assert_eq!(
        warm_outcome(&provider, Err("HTTP 401".to_string())),
        Err("kimi: HTTP 401".to_string())
    );
    let local = Provider::Local { model: PathBuf::new(), binary: PathBuf::new() };
    assert_eq!(
        warm_outcome(&local, Err("model returned no text".to_string())),
        Err("local: model returned no text".to_string())
    );
    assert!(local_warm(true).is_ok());
    assert!(local_warm(false).is_err());
}

#[test]
fn the_endpoints_take_their_overrides() {
    let e = Provider::kimi_endpoint("k", None, None);
    assert_eq!(e.base_url, "https://api.moonshot.cn/v1");
    assert_eq!(e.model, "kimi-k2.6");
    assert_eq!(e.api_key, "k");
    assert_eq!(e.max_tokens_field, "max_completion_tokens");
    let e = Provider::deepseek_endpoint("k", Some("http://proxy".to_string()), Some("m".to_string()));
    assert_eq!(e.base_url, "http://proxy");
    assert_eq!(e.model, "m");
    assert_eq!(e.max_tokens_field, "max_tokens");
    let e = Provider::qwen_endpoint("k", None, None);
    assert_eq!(e.model, "qwen3.7-plus");
    assert_eq!(MAX_TOKENS, 4096);
}

#[test]
fn choosing_from_settings_is_announced_except_for_the_local_model() {
    let mut stored = Stored {
        accent: String::new(),
        provider: "local".to_string(),
        kimi_api_key: String::new(),
        deepseek_api_key: String::new(),
        qwen_api_key: String::new(),
        aws_profile: String::new(),
    };
    assert_eq!(Provider::settings_notice(&stored), None);
    stored.provider = "openai".to_string();
    assert_eq!(
        Provider::settings_notice(&stored),
        Some("[tonemate] unrecognised provider \"openai\"; using bedrock".to_string())
    );
    stored.provider = "deepseek".to_string();
    assert_eq!(
        Provider::settings_notice(&stored),
        Some("[tonemate] deepseek selected but no api key set; using bedrock".to_string())
    );
    stored.deepseek_api_key = "sk".to_string();
    assert_eq!(Provider::settings_notice(&stored), None);
}
