use greentic_ext_runtime::net_permissions::{classify_http_pattern, classify_parsed, effective_url_matcher, HttpClass};
use greentic_ext_runtime::UrlMatcher;

fn empty_override() -> UrlMatcher {
    UrlMatcher::default()
}

fn override_with_pattern(pattern: &str) -> UrlMatcher {
    UrlMatcher::from_patterns(vec![pattern.to_string()])
}

#[test]
fn net_permissions_declared_patterns_allow_declared_host_and_deny_undeclared() {
    let declared = vec!["https://api.github.com/*".to_string()];
    let matcher = effective_url_matcher(&declared, empty_override());
    assert!(matcher.is_allowed("https://api.github.com/repos/org/repo"));
    assert!(!matcher.is_allowed("https://evil.com/"));
}

#[test]
fn net_permissions_empty_declaration_falls_back_to_host_override() {
    let override_matcher = override_with_pattern("https://allowed.com/*");
    let matcher = effective_url_matcher(&[], override_matcher);
    assert!(matcher.is_allowed("https://allowed.com/path"));
    assert!(!matcher.is_allowed("https://other.com/path"));
}

#[test]
fn net_permissions_declared_patterns_replace_not_union_host_override() {
    let declared = vec!["https://api.github.com/*".to_string()];
    let override_matcher = override_with_pattern("https://operator-allowed.com/*");
    let matcher = effective_url_matcher(&declared, override_matcher);
    assert!(matcher.is_allowed("https://api.github.com/repos/org/repo"));
    assert!(!matcher.is_allowed("https://operator-allowed.com/anything"));
}

#[test]
fn net_permissions_empty_declaration_and_empty_override_denies_everything() {
    let matcher = effective_url_matcher(&[], empty_override());
    assert!(!matcher.is_allowed("https://api.github.com/anything"));
}

#[test]
fn net_permissions_declared_http_loopback_127_allows_plain_http() {
    let declared = vec!["http://127.0.0.1:8787/*".to_string()];
    let matcher = effective_url_matcher(&declared, empty_override());
    assert!(matcher.is_allowed("http://127.0.0.1:8787/execute"));
}

#[test]
fn net_permissions_declared_http_loopback_localhost_allows_plain_http() {
    let declared = vec!["http://localhost:8787/*".to_string()];
    let matcher = effective_url_matcher(&declared, empty_override());
    assert!(matcher.is_allowed("http://localhost:8787/execute"));
}

#[test]
fn net_permissions_declared_http_non_loopback_stays_denied() {
    let declared = vec!["http://evil.com/*".to_string()];
    let matcher = effective_url_matcher(&declared, empty_override());
    assert!(!matcher.is_allowed("http://evil.com/anything"));
}

#[test]
fn net_permissions_mixed_loopback_http_and_https_host() {
    let declared = vec![
        "http://127.0.0.1:8787/*".to_string(),
        "https://api.example.com/*".to_string(),
    ];
    let matcher = effective_url_matcher(&declared, empty_override());
    assert!(matcher.is_allowed("http://127.0.0.1:8787/execute"));
    assert!(matcher.is_allowed("https://api.example.com/v1/foo"));
    assert!(!matcher.is_allowed("http://api.example.com/v1/foo"));
}

#[test]
fn net_permissions_declared_http_ipv6_loopback_allows_plain_http() {
    let declared = vec!["http://[::1]:8787/*".to_string()];
    let matcher = effective_url_matcher(&declared, empty_override());
    assert!(matcher.is_allowed("http://[::1]:8787/x"));
    assert!(!matcher.is_allowed("http://evil.com/x"));
}

#[test]
fn net_permissions_adversarial_fake_ipv6_bracket_host_is_denied() {
    let declared = vec!["http://[::1].evil.com/*".to_string()];
    let matcher = effective_url_matcher(&declared, empty_override());
    assert!(!matcher.is_allowed("http://[::1].evil.com/x"));
    assert!(!matcher.is_allowed("http://[::1]/x"));
}

#[test]
fn a_loopback_declaration_does_not_carry_a_public_http_host_with_it() {
    let declared = vec![
        "http://127.0.0.1:8787/*".to_string(),
        "http://evil.com/*".to_string(),
    ];
    let matcher = effective_url_matcher(&declared, empty_override());
    assert!(matcher.is_allowed("http://127.0.0.1:8787/execute"));
    assert!(!matcher.is_allowed("http://evil.com/anything"));
}

#[test]
fn a_pattern_that_smuggles_loopback_past_the_authority_is_not_loopback() {
    for pattern in [
        "http://evil.com?@localhost/*",
        "http://evil.com#@localhost/*",
        "http://evil.com\\@localhost/*",
    ] {
        let matcher = effective_url_matcher(&[pattern.to_string()], empty_override());
        assert!(!matcher.is_allowed("http://evil.com/anything"), "{pattern}");
        assert!(!matcher.is_allowed("http://evil.com/@localhost/pwn"), "{pattern}");
    }
}

#[test]
fn an_oddly_spelled_http_pattern_is_still_classified_as_http() {
    for odd in ["HTTP://evil.com/*", " http://evil.com/*"] {
        let declared = vec!["http://127.0.0.1:1/*".to_string(), odd.to_string()];
        let matcher = effective_url_matcher(&declared, empty_override());
        assert!(!matcher.is_allowed("http://evil.com/anything"), "{odd}");
    }
}

#[test]
fn a_wildcard_localhost_pattern_is_not_treated_as_loopback() {
    let matcher = effective_url_matcher(&["http://*.localhost/*".to_string()], empty_override());
    assert!(!matcher.is_allowed("http://evil.localhost/x"));
}

#[test]
fn other_ipv4_loopback_spellings_are_loopback() {
    for pattern in ["http://127.0.0.2:8787/*", "http://127.1:8787/*"] {
        let matcher = effective_url_matcher(&[pattern.to_string()], empty_override());
        assert!(matcher.patterns().iter().any(|p| p == pattern), "{pattern}");
    }
}

#[test]
fn patterns_are_classified_by_what_the_parser_sees() {
    assert_eq!(classify_http_pattern("http://127.0.0.1:8787/*"), HttpClass::Loopback);
    assert_eq!(classify_http_pattern("http://[::1]:8787/*"), HttpClass::Loopback);
    assert_eq!(classify_http_pattern("http://LocalHost/*"), HttpClass::Loopback);
    assert_eq!(classify_http_pattern("http://evil.com/*"), HttpClass::Public);
    assert_eq!(classify_http_pattern("https://evil.com/*"), HttpClass::Other);
    assert_eq!(classify_http_pattern("not a url"), HttpClass::Other);
    assert_eq!(classify_parsed(&None), HttpClass::Other);
}
