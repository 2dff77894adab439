use prime::setup::{api_key_for, choose_backend, env_or, resolve_max_tokens, resolve_model, Backend, SetupError};

fn s(x: &str) -> String {
    x.to_string()
}

#[test]
fn models_tokens_and_providers() {
    assert_eq!(env_or(Some("ollama"), "google"), "ollama");
    assert_eq!(env_or(None, "google"), "google");
    assert_eq!(resolve_model(Some("m1"), Some("m2"), "google"), "m1");
    assert_eq!(resolve_model(None, Some("m2"), "google"), "m2");
    assert_eq!(resolve_model(None, None, "google"), "gemini-2.5-flash-lite");
    assert_eq!(resolve_model(None, None, "ollama"), "gemma2");
    assert_eq!(resolve_model(None, None, "other"), "gemma2");
    assert_eq!(resolve_max_tokens(Some("1024"), 8192), 1024);
    assert_eq!(resolve_max_tokens(Some("+7"), 8192), 7);
    assert_eq!(resolve_max_tokens(Some("4294967296"), 8192), 8192);
    assert_eq!(resolve_max_tokens(Some("x"), 8192), 8192);
    assert_eq!(resolve_max_tokens(None, 5), 5);
    assert_eq!(choose_backend("google", "k"), Ok((Backend::Google, s("Google AI Platform"))));
    assert_eq!(choose_backend("google", ""), Err(SetupError::MissingGeminiKey));
    assert!(SetupError::MissingGeminiKey.message().starts_with("GEMINI_API_KEY not set"));
    assert_eq!(choose_backend("ollama", ""), Ok((Backend::Ollama, s("Ollama"))));
    let e = choose_backend("openai", "k").unwrap_err();
    assert_eq!(e.message(), "Unsupported LLM provider: openai");
}

#[test]
fn api_key_follows_provider() {
    assert_eq!(api_key_for("google", Some("g-env"), "g-conf", Some("o-env"), "o-conf"), "g-env");
    assert_eq!(api_key_for("google", None, "g-conf", Some("o-env"), "o-conf"), "g-conf");
    assert_eq!(api_key_for("ollama", Some("g-env"), "g-conf", None, "o-conf"), "o-conf");
    assert_eq!(api_key_for("other", None, "g-conf", Some("o-env"), "o-conf"), "o-env");
}
