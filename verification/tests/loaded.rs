use greentic_ext_runtime::net_permissions::effective_url_matcher;
use greentic_ext_runtime::UrlMatcher;

fn empty_override() -> UrlMatcher {
    UrlMatcher::default()
}

fn override_with_pattern(pattern: &str) -> UrlMatcher {
    UrlMatcher::from_patterns(vec![pattern.to_string()])
}

#[test]
fn loaded_declared_patterns_allow_declared_host_and_deny_undeclared() {
    let declared = vec!["https://api.github.com/*".to_string()];
    let matcher = effective_url_matcher(&declared, empty_override());
    assert!(matcher.is_allowed("https://api.github.com/repos/org/repo"));
    assert!(!matcher.is_allowed("https://evil.com/"));
}

#[test]
fn loaded_empty_declaration_falls_back_to_host_override() {
    let override_matcher = override_with_pattern("https://allowed.com/*");
    let matcher = effective_url_matcher(&[], override_matcher);
    assert!(matcher.is_allowed("https://allowed.com/path"));
    assert!(!matcher.is_allowed("https://other.com/path"));
}

#[test]
fn loaded_declared_patterns_replace_not_union_host_override() {
    let declared = vec!["https://api.github.com/*".to_string()];
    let override_matcher = override_with_pattern("https://operator-allowed.com/*");
    let matcher = effective_url_matcher(&declared, override_matcher);
    assert!(matcher.is_allowed("https://api.github.com/repos/org/repo"));
    assert!(!matcher.is_allowed("https://operator-allowed.com/anything"));
}

#[test]
fn loaded_empty_declaration_and_empty_override_denies_everything() {
    let matcher = effective_url_matcher(&[], empty_override());
    assert!(!matcher.is_allowed("https://api.github.com/anything"));
}

#[test]
fn loaded_declared_http_loopback_127_allows_plain_http() {
    let declared = vec!["http://127.0.0.1:8787/*".to_string()];
    let matcher = effective_url_matcher(&declared, empty_override());
    assert!(matcher.is_allowed("http://127.0.0.1:8787/execute"));
}

#[test]
fn loaded_declared_http_loopback_localhost_allows_plain_http() {
    let declared = vec!["http://localhost:8787/*".to_string()];
    let matcher = effective_url_matcher(&declared, empty_override());
    assert!(matcher.is_allowed("http://localhost:8787/execute"));
}

#[test]
fn loaded_declared_http_non_loopback_stays_denied() {
    let declared = vec!["http://evil.com/*".to_string()];
    let matcher = effective_url_matcher(&declared, empty_override());
    assert!(!matcher.is_allowed("http://evil.com/anything"));
}

#[test]
fn loaded_mixed_loopback_http_and_https_host() {
    let declared = vec![
        "http://127.0.0.1:8787/*".to_string(),
        "https://api.example.com/*".to_string(),
    ];
    let matcher = effective_url_matcher(&declared, empty_override());
    assert!(matcher.is_allowed("http://127.0.0.1:8787/execute"));
    assert!(matcher.is_allowed("https://api.example.com/v1/foo"));
    assert!(!matcher.is_allowed("http://api.example.com/v1/foo"));
}

#[test]
fn loaded_declared_http_ipv6_loopback_allows_plain_http() {
    let declared = vec!["http://[::1]:8787/*".to_string()];
    let matcher = effective_url_matcher(&declared, empty_override());
    assert!(matcher.is_allowed("http://[::1]:8787/x"));
    assert!(!matcher.is_allowed("http://evil.com/x"));
}

#[test]
fn loaded_adversarial_fake_ipv6_bracket_host_is_denied() {
    let declared = vec!["http://[::1].evil.com/*".to_string()];
    let matcher = effective_url_matcher(&declared, empty_override());
    assert!(!matcher.is_allowed("http://[::1].evil.com/x"));
    assert!(!matcher.is_allowed("http://[::1]/x"));
}
