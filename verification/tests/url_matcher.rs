use greentic_ext_runtime::UrlMatcher;

fn matcher(patterns: &[&str]) -> UrlMatcher {
    UrlMatcher::from_patterns(patterns.iter().map(|s| (*s).to_string()).collect())
}

#[test]
fn allows_exact_host_and_path_prefix_match() {
    let m = matcher(&["https://api.openai.com/v1/*"]);
    assert!(m.is_allowed("https://api.openai.com/v1/chat/completions"));
    assert!(m.is_allowed("https://api.openai.com/v1/embeddings"));
}

#[test]
fn rejects_open_redirect_via_query_string() {
    let m = matcher(&["https://evil.com/*"]);
    assert!(!m.is_allowed("https://allowed.com/redirect?to=https://evil.com/"));
}

#[test]
fn rejects_subdomain_confusion() {
    let m = matcher(&["https://allowed.com/*"]);
    assert!(!m.is_allowed("https://evil.com.allowed.com/"));
}

#[test]
fn rejects_scheme_downgrade() {
    let m = matcher(&["https://allowed.com/*"]);
    assert!(!m.is_allowed("http://allowed.com/"));
}

#[test]
fn allows_wildcard_subdomain_when_pattern_uses_star_dot() {
    let m = matcher(&["https://*.example.com/*"]);
    assert!(m.is_allowed("https://api.example.com/v1/foo"));
    assert!(m.is_allowed("https://cdn.example.com/assets/logo.png"));
    assert!(!m.is_allowed("https://example.com/x"));
}

#[test]
fn rejects_non_https_by_default() {
    let m = matcher(&["http://allowed.com/*"]);
    assert!(!m.is_allowed("http://allowed.com/"));
}

#[test]
fn opt_in_allow_http_lets_http_through() {
    let m = UrlMatcher::from_patterns(vec!["http://allowed.com/*".into()]).with_allow_http(true);
    assert!(m.is_allowed("http://allowed.com/anything"));
}

#[test]
fn rejects_url_that_fails_to_parse() {
    let m = matcher(&["https://allowed.com/*"]);
    assert!(!m.is_allowed("not a url at all"));
}

#[test]
fn an_empty_allow_list_denies_everything() {
    let m = UrlMatcher::default();
    assert!(!m.is_allowed("https://api.github.com/"));
    assert!(m.patterns().is_empty());
    assert!(!m.allows_http());
}

#[test]
fn a_path_prefix_pattern_does_not_cover_other_paths() {
    let m = matcher(&["https://api.openai.com/v1/*"]);
    assert!(!m.is_allowed("https://api.openai.com/v2/models"));
}

#[test]
fn a_path_prefix_keeps_its_closing_slash() {
    let m = matcher(&["https://api.openai.com/v1/*"]);
    assert!(m.is_allowed("https://api.openai.com/v1/chat/completions"));
    assert!(!m.is_allowed("https://api.openai.com/v1beta/models"));
    assert!(!m.is_allowed("https://api.openai.com/v1"));
}

#[test]
fn host_matching_ignores_ascii_case() {
    let m = matcher(&["https://API.Example.com/*"]);
    assert!(m.is_allowed("https://api.example.COM/x"));
}

#[test]
fn the_raw_patterns_are_kept_as_given() {
    let m = matcher(&["https://a.com/*", "not a pattern"]);
    assert_eq!(m.patterns(), ["https://a.com/*".to_string(), "not a pattern".to_string()]);
}

#[test]
fn the_toggle_does_not_downgrade_an_https_pattern() {
    let m = matcher(&["https://allowed.com/*"]).with_allow_http(true);
    assert!(!m.is_allowed("http://allowed.com/"));
    assert!(m.is_allowed("https://allowed.com/"));
}

#[test]
fn allows_parsed_refuses_what_did_not_parse() {
    let m = matcher(&["https://allowed.com/*"]);
    assert!(!m.allows_parsed(&None));
}
