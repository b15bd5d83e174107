
use greentic_ext_runtime::host_calls::{
    broker_call_gate, completion_gate, fetch_request_gate, get_secret, HttpMethod, MAX_BROKER_DEPTH,
};
use greentic_ext_runtime::{InMemorySecrets, Translator, UrlMatcher};

struct EnglishToIndonesian;

impl Translator for EnglishToIndonesian {
    fn t(&self, key: &str) -> String {
        match key {
            "greentic.test.hello" => "Halo dunia".to_string(),
            _ => key.to_string(),
        }
    }
    fn tf(&self, key: &str, args: &[(&str, &str)]) -> String {
        let template = self.t(key);
        args.iter().fold(template, |acc, (k, v)| acc.replace(&format!("{{{k}}}"), v))
    }
}

struct GreetTranslator;

impl Translator for GreetTranslator {
    fn t(&self, key: &str) -> String {
        if key == "greentic.test.greet" {
            "Halo {name}!".to_string()
        } else {
            key.to_string()
        }
    }
    fn tf(&self, key: &str, args: &[(&str, &str)]) -> String {
        let template = self.t(key);
        args.iter().fold(template, |acc, (k, v)| acc.replace(&format!("{{{k}}}"), v))
    }
}

fn secret_read(declared: &[&str], stored: &[(&str, &str)], uri: &str) -> Result<String, String> {
    let mut backend = InMemorySecrets::default();
    for (k, v) in stored {
        backend.insert(k, v);
    }
    let declared: Vec<String> = declared.iter().map(|s| (*s).to_string()).collect();
    get_secret(&declared, &backend, uri)
}

fn call(kinds: &[&str], kind: &str, depth: u32) -> Result<(), String> {
    let kinds: Vec<String> = kinds.iter().map(|s| (*s).to_string()).collect();
    broker_call_gate("caller", &kinds, kind, depth)
}

#[test]
fn host_state_net_http_fetch_denied_when_url_not_in_matcher() {
    let m = UrlMatcher::from_patterns(vec!["https://allowed.com/*".into()]);
    let err = fetch_request_gate(&m, "https://evil.com/", false, "GET").unwrap_err();
    assert!(err.contains("not allowed") || err.contains("permission denied"), "got: {err}");
}

#[test]
fn http_fetch_without_a_client_reports_it_rather_than_panicking() {
    let m = UrlMatcher::from_patterns(vec!["https://allowed.com/*".into()]);
    let err = fetch_request_gate(&m, "https://allowed.com/x", false, "GET").unwrap_err();
    assert!(err.contains("http client not configured"), "got: {err}");
}

fn roles(r: &[&str]) -> Vec<String> {
    r.iter().map(|s| (*s).to_string()).collect()
}

#[test]
fn llm_complete_resolves_sole_declared_role() {
    assert_eq!(completion_gate(&roles(&["sorla_composer"]), None, true).unwrap(), "sorla_composer");
}

#[test]
fn llm_complete_passes_none_tenant_by_default() {
    assert_eq!(completion_gate(&roles(&["sorla_composer"]), None, true).unwrap(), "sorla_composer");
}

#[test]
fn llm_complete_passes_user_email() {
    assert_eq!(completion_gate(&roles(&["sorla_composer"]), None, true).unwrap(), "sorla_composer");
}

#[test]
fn llm_complete_rejects_undeclared_role() {
    let err = completion_gate(&roles(&[]), Some("sorla_composer"), true).unwrap_err();
    assert!(err.contains("llm role not permitted"), "got: {err}");
}

#[test]
fn llm_complete_honours_a_valid_hint_among_several_roles() {
    assert_eq!(completion_gate(&roles(&["composer", "editor"]), Some("editor"), true).unwrap(), "editor");
}

#[test]
fn llm_complete_rejects_a_hint_that_is_not_among_the_declared_roles() {
    let err = completion_gate(&roles(&["composer", "editor"]), Some("admin"), true).unwrap_err();
    assert!(err.contains("llm role not permitted: admin"), "got: {err}");
}

#[test]
fn llm_complete_without_port_errors() {
    let err = completion_gate(&roles(&["sorla_composer"]), None, false).unwrap_err();
    assert!(err.contains("llm not configured"), "got: {err}");
}

#[test]
fn llm_complete_requires_hint_when_multiple_roles() {
    let err = completion_gate(&roles(&["a", "b"]), None, true).unwrap_err();
    assert!(err.contains("role-hint required"), "got: {err}");
}

#[test]
fn an_allowed_fetch_resolves_its_method_case_insensitively() {
    let m = UrlMatcher::from_patterns(vec!["https://allowed.com/*".into()]);
    assert_eq!(fetch_request_gate(&m, "https://allowed.com/x", true, "post").unwrap(), HttpMethod::Post);
    let err = fetch_request_gate(&m, "https://allowed.com/x", true, "brew").unwrap_err();
    assert_eq!(err, "unsupported http method: BREW");
}
