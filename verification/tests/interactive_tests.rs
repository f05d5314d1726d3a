use codex_rs::cli::Provider;
use codex_rs::config::{Config, EnvKeys};
use codex_rs::interactive::{edited_text, Session, Stage, DEFAULT_TIMEOUT_SECS};
use codex_rs::json::Json;
use codex_rs::providers::ModelInfo;

fn env_with_replicate(key: Option<&str>) -> EnvKeys {
    EnvKeys { replicate_api_token: key.map(String::from), fal_key: None, fal_api_key: None, wavespeed_api_key: None }
}

fn info(id: &str, desc: Option<&str>) -> ModelInfo {
    ModelInfo { id: id.to_string(), name: id.to_string(), description: desc.map(String::from), owner: None, url: None }
}

#[test]
fn session_with_stored_key_and_listing() {
    let mut s = Session::start(None);
    assert_eq!(s.stage, Stage::ChooseProvider);
    s.choose_provider(0);
    assert_eq!(s.provider, Provider::Replicate);
    assert_eq!(s.stage, Stage::ResolveKey);
    let mut config = Config::default();
    config.set_api_key(Provider::Replicate, "stored".to_string());
    s.resolve_key(&env_with_replicate(None), config);
    assert_eq!(s.stage, Stage::OpenProvider);
    assert_eq!(s.api_key, "stored");
    s.provider_opened();
    s.confirm_listing(true);
    assert_eq!(s.stage, Stage::ListModels);
    s.models_listed(Some(vec![info("a/b", Some(&"d".repeat(60))), info("c/d", None)]));
    assert_eq!(s.stage, Stage::ChooseModel);
    let labels = s.model_labels();
    assert_eq!(labels, vec![format!("a/b - {}...", "d".repeat(47)), "c/d - ".to_string()]);
    s.choose_model(1);
    assert_eq!(s.model, "c/d");
    assert_eq!(s.stage, Stage::ShowSchema);
}

#[test]
fn session_asks_for_key_and_saves_it() {
    let mut s = Session::start(Some(Provider::Fal));
    assert_eq!(s.stage, Stage::ResolveKey);
    s.resolve_key(&env_with_replicate(Some("irrelevant")), Config::default());
    assert_eq!(s.stage, Stage::EnterKey);
    s.enter_key("typed".to_string());
    assert_eq!(s.stage, Stage::ConfirmSaveKey);
    s.confirm_save_key(true);
    assert_eq!(s.stage, Stage::SaveKey);
    assert_eq!(s.config.get_api_key(Provider::Fal).map(|k| k.as_str()), Some("typed"));
    s.key_saved();
    assert_eq!(s.stage, Stage::OpenProvider);
}

#[test]
fn session_without_listing_and_files() {
    let mut s = Session::start(Some(Provider::WaveSpeed));
    s.resolve_key(&env_with_replicate(None), Config::default());
    s.enter_key("k".to_string());
    s.confirm_save_key(false);
    assert_eq!(s.stage, Stage::OpenProvider);
    assert!(s.config.get_api_key(Provider::WaveSpeed).is_none());
    s.provider_opened();
    s.confirm_listing(false);
    assert_eq!(s.stage, Stage::EnterModelId);
    s.enter_model_id("w/m".to_string());
    s.schema_shown();
    s.choose_input_method(2);
    assert_eq!(s.stage, Stage::ConfirmUploads);
    assert!(matches!(&s.input, Json::Object(e) if e.is_empty()));
    s.confirm_uploads(true);
    s.enter_param_name("image".to_string());
    s.enter_file_path("missing.png".to_string());
    assert_eq!(s.stage, Stage::CheckFile);
    s.file_checked(false);
    assert!(s.files.is_empty());
    s.confirm_another_file(true);
    s.enter_param_name("image".to_string());
    s.enter_file_path("there.png".to_string());
    s.file_checked(true);
    assert_eq!(s.files.get("image").map(|f| f.path.clone()), Some("there.png".to_string()));
    s.confirm_another_file(false);
    assert_eq!(s.stage, Stage::ConfirmWait);
    s.confirm_wait(false);
    assert_eq!(s.stage, Stage::Run);
    assert_eq!(s.timeout, DEFAULT_TIMEOUT_SECS);
    assert!(!s.wait);
}

#[test]
fn session_empty_listing_and_timeout() {
    let mut s = Session::start(Some(Provider::Replicate));
    s.resolve_key(&env_with_replicate(Some("env")), Config::default());
    assert_eq!(s.api_key, "env");
    s.provider_opened();
    s.confirm_listing(true);
    s.models_listed(Some(vec![]));
    assert_eq!(s.stage, Stage::EnterModelId);
    s.enter_model_id("x".to_string());
    s.schema_shown();
    s.choose_input_method(0);
    assert_eq!(s.stage, Stage::EnterInputJson);
    s.input_given(Json::Bool(true));
    s.confirm_uploads(false);
    s.confirm_wait(true);
    assert_eq!(s.stage, Stage::EnterTimeout);
    s.enter_timeout(42);
    assert_eq!(s.stage, Stage::Run);
    assert_eq!(s.timeout, 42);
    assert!(s.wait);
}

#[test]
fn failed_listing_asks_for_id() {
    let mut s = Session::start(Some(Provider::Replicate));
    s.resolve_key(&env_with_replicate(Some("env")), Config::default());
    s.provider_opened();
    s.confirm_listing(true);
    s.models_listed(None);
    assert_eq!(s.stage, Stage::EnterModelId);
}

#[test]
fn editor_text_defaults_to_empty_object() {
    assert_eq!(edited_text(None), "{}");
    assert_eq!(edited_text(Some("{\"a\":1}".to_string())), "{\"a\":1}");
}
