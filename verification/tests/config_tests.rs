use codex_rs::cli::{choose_input_source, ConfigAction, InputSource, OutputFormat, Provider};
use codex_rs::config::{
    apply_config_change, config_show_lines, get_api_key_for_provider, mask_key, Config, EnvKeys,
};

fn no_env() -> EnvKeys {
    EnvKeys { replicate_api_token: None, fal_key: None, fal_api_key: None, wavespeed_api_key: None }
}

#[test]
fn provider_names() {
    assert_eq!(Provider::Replicate.to_string(), "replicate");
    assert_eq!(Provider::Fal.to_string(), "fal");
    assert_eq!(Provider::WaveSpeed.to_string(), "wavespeed");
}

#[test]
fn provider_menu_positions() {
    assert_eq!(Provider::from_menu_index(0), Some(Provider::Replicate));
    assert_eq!(Provider::from_menu_index(1), Some(Provider::Fal));
    assert_eq!(Provider::from_menu_index(2), Some(Provider::WaveSpeed));
    assert_eq!(Provider::from_menu_index(3), None);
}

#[test]
fn output_format_defaults_to_text() {
    assert_eq!(OutputFormat::default(), OutputFormat::Text);
}

#[test]
fn input_source_precedence() {
    assert!(matches!(choose_input_source(Some("{}".into()), Some("a.json".into())), InputSource::Inline(s) if s == "{}"));
    assert!(matches!(choose_input_source(None, Some("a.json".into())), InputSource::File(s) if s == "a.json"));
    assert!(matches!(choose_input_source(None, None), InputSource::Empty));
}

#[test]
fn set_then_get_returns_key() {
    let mut c = Config::default();
    assert!(c.get_api_key(Provider::Fal).is_none());
    c.set_api_key(Provider::Fal, "k1".to_string());
    assert_eq!(c.get_api_key(Provider::Fal).map(|s| s.as_str()), Some("k1"));
    assert!(c.get_api_key(Provider::Replicate).is_none());
}

#[test]
fn last_set_wins() {
    let mut c = Config::default();
    c.set_api_key(Provider::Replicate, "first".to_string());
    c.set_api_key(Provider::Replicate, "second".to_string());
    assert_eq!(c.get_api_key(Provider::Replicate).map(|s| s.as_str()), Some("second"));
    assert_eq!(c.api_keys.len(), 1);
}

#[test]
fn clear_removes_only_that_provider() {
    let mut c = Config::default();
    c.set_api_key(Provider::Replicate, "r".to_string());
    c.set_api_key(Provider::WaveSpeed, "w".to_string());
    c.clear_api_key(Provider::Replicate);
    assert!(c.get_api_key(Provider::Replicate).is_none());
    assert_eq!(c.get_api_key(Provider::WaveSpeed).map(|s| s.as_str()), Some("w"));
}

#[test]
fn clear_all_empties() {
    let mut c = Config::default();
    c.set_api_key(Provider::Replicate, "r".to_string());
    c.set_api_key(Provider::Fal, "f".to_string());
    c.clear_all();
    assert!(c.api_keys.is_empty());
    assert!(c.get_api_key(Provider::Fal).is_none());
}

#[test]
fn environment_key_comes_first() {
    let mut c = Config::default();
    c.set_api_key(Provider::Replicate, "stored".to_string());
    let mut env = no_env();
    env.replicate_api_token = Some("from-env".to_string());
    assert_eq!(get_api_key_for_provider(Provider::Replicate, &env, &c), Ok("from-env".to_string()));
    assert_eq!(get_api_key_for_provider(Provider::Replicate, &no_env(), &c), Ok("stored".to_string()));
}

#[test]
fn fal_key_before_fal_api_key() {
    let c = Config::default();
    let mut env = no_env();
    env.fal_api_key = Some("second".to_string());
    assert_eq!(get_api_key_for_provider(Provider::Fal, &env, &c), Ok("second".to_string()));
    env.fal_key = Some("first".to_string());
    assert_eq!(get_api_key_for_provider(Provider::Fal, &env, &c), Ok("first".to_string()));
}

#[test]
fn missing_key_message() {
    let c = Config::default();
    assert_eq!(
        get_api_key_for_provider(Provider::WaveSpeed, &no_env(), &c),
        Err("No API key found for wavespeed. Set WAVESPEED_API_KEY or run `codex-rs config set wavespeed <key>`".to_string())
    );
    assert_eq!(
        get_api_key_for_provider(Provider::Fal, &no_env(), &c),
        Err("No API key found for fal. Set FAL_KEY or run `codex-rs config set fal <key>`".to_string())
    );
}

#[test]
fn masking() {
    assert_eq!(mask_key("r8_abcdefghijkl"), "r8_a...ijkl");
    assert_eq!(mask_key("12345678"), "****");
    assert_eq!(mask_key("123456789"), "1234...6789");
    assert_eq!(mask_key(""), "****");
}

#[test]
fn masking_keeps_whole_characters() {
    assert_eq!(mask_key("ééabcdefgh"), "éé...efgh");
}

#[test]
fn show_lines_without_keys() {
    let c = Config::default();
    let mut env = no_env();
    env.fal_api_key = Some("x".to_string());
    let lines = config_show_lines(&c, "/tmp/codex-rs/codex-rs.json", &env);
    assert_eq!(
        lines,
        vec![
            "Config file: /tmp/codex-rs/codex-rs.json".to_string(),
            "".to_string(),
            "No API keys configured.".to_string(),
            "".to_string(),
            "Environment variables (if set, take precedence):".to_string(),
            "  REPLICATE_API_TOKEN: not set".to_string(),
            "  FAL_KEY: set".to_string(),
            "  WAVESPEED_API_KEY: not set".to_string(),
        ]
    );
}

#[test]
fn show_lines_with_keys() {
    let mut c = Config::default();
    c.set_api_key(Provider::Replicate, "r8_0123456789".to_string());
    c.set_api_key(Provider::Fal, "short".to_string());
    let lines = config_show_lines(&c, "p", &no_env());
    assert_eq!(lines[2], "Configured API keys:");
    assert_eq!(lines[3], "  replicate: r8_0...6789");
    assert_eq!(lines[4], "  fal: ****");
    assert_eq!(lines[5], "");
    assert_eq!(lines.len(), 10);
}

#[test]
fn config_changes_and_messages() {
    let mut c = Config::default();
    let m = apply_config_change(&mut c, ConfigAction::SetKey { provider: Provider::Fal, key: "abc".to_string() });
    assert_eq!(m, "API key for fal saved successfully.");
    assert_eq!(c.get_api_key(Provider::Fal).map(|s| s.as_str()), Some("abc"));
    let m = apply_config_change(&mut c, ConfigAction::Clear { provider: Some(Provider::Fal) });
    assert_eq!(m, "API key for fal cleared.");
    assert!(c.get_api_key(Provider::Fal).is_none());
    c.set_api_key(Provider::Replicate, "x".to_string());
    let m = apply_config_change(&mut c, ConfigAction::Clear { provider: None });
    assert_eq!(m, "All API keys cleared.");
    assert!(c.api_keys.is_empty());
}

#[test]
fn key_survives_changes_to_other_providers() {
    let mut c = Config::default();
    c.set_api_key(Provider::Fal, "keep".to_string());
    c.set_api_key(Provider::Replicate, "r1".to_string());
    c.clear_api_key(Provider::WaveSpeed);
    c.set_api_key(Provider::WaveSpeed, "w".to_string());
    c.clear_api_key(Provider::Replicate);
    assert_eq!(c.get_api_key(Provider::Fal).map(|s| s.as_str()), Some("keep"));
}
