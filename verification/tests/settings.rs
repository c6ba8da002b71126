use tonemate::settings::{defaults, fill_defaults, provider_config, Stored, DEFAULT_ACCENT, DEFAULT_PROVIDER};

fn stored(accent: &str, provider: &str) -> Stored {
    Stored {
        accent: accent.to_string(),
        provider: provider.to_string(),
        kimi_api_key: String::new(),
        deepseek_api_key: String::new(),
        qwen_api_key: String::new(),
        aws_profile: String::new(),
    }
}

#[test]
fn nothing_read_means_the_defaults() {
    let s = fill_defaults(Stored::default());
    assert_eq!(s.accent, DEFAULT_ACCENT);
    assert_eq!(s.provider, DEFAULT_PROVIDER);
    assert_eq!(s.kimi_api_key, "");
    let d = defaults();
    assert_eq!(d.accent, "graphite");
    assert_eq!(d.provider, "bedrock");
    assert_eq!(d.aws_profile, "");
}

#[test]
fn an_old_file_keeps_its_accent_and_an_unknown_provider_is_kept() {
    let s = fill_defaults(stored("wine", ""));
    assert_eq!(s.accent, "wine");
    assert_eq!(s.provider, "bedrock");
    let s = fill_defaults(stored("pine", "openai"));
    assert_eq!(s.provider, "openai");
}

#[test]
fn filling_twice_is_filling_once() {
    let once = fill_defaults(stored("", "kimi"));
    let twice = fill_defaults(stored(&once.accent, &once.provider));
    assert_eq!(twice.accent, once.accent);
    assert_eq!(twice.provider, once.provider);
}

#[test]
fn keys_are_trimmed_and_an_empty_one_clears() {
    let mut s = defaults();
    assert!(s.set_kimi_api_key("  sk-example \n"));
    assert_eq!(s.kimi_api_key, "sk-example");
    assert!(!s.set_kimi_api_key("   "));
    assert_eq!(s.kimi_api_key, "");
    assert!(s.set_deepseek_api_key("sk-deepseek"));
    assert!(s.set_qwen_api_key(" sk-qwen"));
    assert_eq!(s.qwen_api_key, "sk-qwen");
    s.set_aws_profile(" corp ");
    assert_eq!(s.aws_profile, "corp");
    s.set_accent("indigo");
    s.set_provider("deepseek");
    assert_eq!(s.accent, "indigo");
    assert_eq!(s.provider, "deepseek");
    assert_eq!(s.deepseek_api_key, "sk-deepseek");
}

#[test]
fn the_panel_learns_only_whether_each_key_is_set() {
    let mut s = defaults();
    s.set_qwen_api_key("sk-qwen");
    s.set_aws_profile("corp");
    let c = provider_config(&s);
    assert_eq!(c.provider, "bedrock");
    assert!(!c.kimi_key_set);
    assert!(!c.deepseek_key_set);
    assert!(c.qwen_key_set);
    assert_eq!(c.aws_profile, "corp");
}
