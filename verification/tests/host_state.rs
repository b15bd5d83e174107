
use greentic_ext_runtime::host_calls::{
    broker_call_gate, completion_gate, fetch_request_gate, get_secret, HttpMethod, MAX_BROKER_DEPTH,
};
use greentic_ext_runtime::{InMemorySecrets, Translator, UrlMatcher};

struct EnglishToIndonesian;

impl Translator for EnglishToIndonesian {
    fn t(&self, key: &str) -> String {
        match key {
            "greentic.test.hello" => "Halo dunia".to_string(),
            _ => key.to_string(),
        }
    }
    fn tf(&self, key: &str, args: &[(&str, &str)]) -> String {
        let template = self.t(key);
        args.iter().fold(template, |acc, (k, v)| acc.replace(&format!("{{{k}}}"), v))
    }
}

struct GreetTranslator;

impl Translator for GreetTranslator {
    fn t(&self, key: &str) -> String {
        if key == "greentic.test.greet" {
            "Halo {name}!".to_string()
        } else {
            key.to_string()
        }
    }
    fn tf(&self, key: &str, args: &[(&str, &str)]) -> String {
        let template = self.t(key);
        args.iter().fold(template, |acc, (k, v)| acc.replace(&format!("{{{k}}}"), v))
    }
}

fn secret_read(declared: &[&str], stored: &[(&str, &str)], uri: &str) -> Result<String, String> {
    let mut backend = InMemorySecrets::default();
    for (k, v) in stored {
        backend.insert(k, v);
    }
    let declared: Vec<String> = declared.iter().map(|s| (*s).to_string()).collect();
    get_secret(&declared, &backend, uri)
}

fn call(kinds: &[&str], kind: &str, depth: u32) -> Result<(), String> {
    let kinds: Vec<String> = kinds.iter().map(|s| (*s).to_string()).collect();
    broker_call_gate("caller", &kinds, kind, depth)
}

#[test]
fn host_state_i18n_t_resolves_translated_value() {
    let t = EnglishToIndonesian;
    assert_eq!(t.t("greentic.test.hello"), "Halo dunia");
}

#[test]
fn host_state_i18n_t_falls_back_to_key_for_unknown() {
    let t = EnglishToIndonesian;
    assert_eq!(t.t("missing.key"), "missing.key");
}

#[test]
fn host_state_i18n_tf_substitutes_named_args() {
    let t = GreetTranslator;
    assert_eq!(t.tf("greentic.test.greet", &[("name", "Bima")]), "Halo Bima!");
}

#[test]
fn host_state_secrets_get_returns_value_when_permitted() {
    let v = secret_read(
        &["api.openai.com/api_key"],
        &[("api.openai.com/api_key", "sk-real")],
        "api.openai.com/api_key",
    )
    .unwrap();
    assert_eq!(v, "sk-real");
}

#[test]
fn host_state_secrets_get_denies_when_uri_not_in_permissions() {
    let err = secret_read(&[], &[("api.openai.com/api_key", "sk-real")], "api.openai.com/api_key")
        .unwrap_err();
    assert!(err.contains("permission denied"), "expected permission denied, got: {err}");
}

#[test]
fn host_state_secrets_get_surfaces_backend_not_found() {
    let err = secret_read(&["api.openai.com/api_key"], &[], "api.openai.com/api_key").unwrap_err();
    assert!(err.contains("not found"), "got: {err}");
}

#[test]
fn host_state_broker_denies_when_kind_not_in_permissions() {
    let err = call(&["provider"], "design", 0).unwrap_err();
    assert!(err.contains("may not call"), "got: {err}");
}

#[test]
fn host_state_broker_rejects_when_depth_exceeded() {
    let err = call(&["design"], "design", MAX_BROKER_DEPTH).unwrap_err();
    assert!(err.contains("max"), "expected depth error, got: {err}");
}

#[test]
fn host_state_http_fetch_denied_when_url_not_in_matcher() {
    let m = UrlMatcher::from_patterns(vec!["https://allowed.com/*".into()]);
    let err = fetch_request_gate(&m, "https://evil.com/", false, "GET").unwrap_err();
    assert!(err.contains("not allowed") || err.contains("permission denied"), "got: {err}");
}
