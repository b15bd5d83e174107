//! Strict URL allow-list matcher.
//!
//! The matcher parses both the pattern and the request URL with the `url`
//! crate, then compares three orthogonal facets:
//!
//! 1. **Scheme** — exact match; non-`https` requests are additionally
//!    rejected unless the matcher was built `with_allow_http(true)`.
//! 2. **Host** — either an exact, ASCII-case-insensitive match, or a
//!    `*.<suffix>` wildcard that requires at least one label before the
//!    suffix and a `.` boundary (so `*.example.com` does not match
//!    `example.com`, and `allowed.com` does not match `evil.com.allowed.com`
//!    unless it is a wildcard).
//! 3. **Path** — prefix match against `pattern.path` with the trailing
//!    `*` stripped. `/v1/*` matches `/v1/chat/completions`. A bare
//!    pattern path of `/` matches any path.
use vstd::prelude::*;
use crate::text::{
    concat, ends_with_ignore_ascii_case, eq_ignore_ascii_case, starts_with, str_ends_with_ignore_ascii_case,
    str_eq, str_eq_ignore_ascii_case, str_starts_with, str_strip_prefix, str_trim_end_matches,
    strip_prefix, trim_end_matches,
};
use crate::url_parts::{opt_url_view, parse_url, parsed_url, UrlFacts, UrlParts};

verus! {

/// How a pattern constrains the host.
#[derive(Debug, Clone)]
enum HostRule {
    Exact(String),
    /// `*.example.com` — any host that ends with `.example.com`.
    WildcardSuffix(String),
}

#[derive(Debug, Clone)]
struct ParsedPattern {
    scheme: String,
    host_rule: HostRule,
    path_prefix: String,
}

/// Mathematical value of a host rule.
pub ghost enum HostRuleView {
    Exact(Seq<char>),
    WildcardSuffix(Seq<char>),
}

/// Mathematical value of one parsed allow-list pattern.
pub ghost struct PatternView {
    pub scheme: Seq<char>,
    pub host_rule: HostRuleView,
    pub path_prefix: Seq<char>,
}

/// Mathematical value of a [`UrlMatcher`]: the parsed patterns that are
/// consulted, the patterns exactly as they were supplied, and the plain-http
/// toggle.
pub ghost struct MatcherView {
    pub patterns: Seq<PatternView>,
    pub raw: Seq<Seq<char>>,
    pub allow_http: bool,
}

impl HostRule {
    spec fn view(&self) -> HostRuleView {
        match self {
            HostRule::Exact(h) => HostRuleView::Exact(h@),
            HostRule::WildcardSuffix(s) => HostRuleView::WildcardSuffix(s@),
        }
    }
}

impl ParsedPattern {
    spec fn view(&self) -> PatternView {
        PatternView {
            scheme: self.scheme@,
            host_rule: self.host_rule.view(),
            path_prefix: self.path_prefix@,
        }
    }
}

/// The pattern normalized for parsing: the trailing `*` removed and a leading
/// `*.` host label replaced by a placeholder label. The flag tells whether the
/// placeholder was used.
pub open spec fn normalize_pattern(p: Seq<char>) -> (bool, Seq<char>) {
    let stripped = trim_end_matches(p, "*"@);
    match strip_prefix(stripped, "https://*."@) {
        Some(rest) => (true, "https://__wildcard__."@ + rest),
        None => match strip_prefix(stripped, "http://*."@) {
            Some(rest) => (true, "http://__wildcard__."@ + rest),
            None => (false, stripped),
        },
    }
}

/// The path prefix a pattern path stands for: an empty path or `/` means any
/// path.
pub open spec fn pattern_path(path: Seq<char>) -> Seq<char> {
    if path.len() == 0 || path == "/"@ {
        "/"@
    } else {
        path
    }
}

/// What a single allow-list pattern parses to, or `None` when it is ignored.
pub open spec fn pattern_of(p: Seq<char>) -> Option<PatternView> {
    let (wildcard, normalized) = normalize_pattern(p);
    match parsed_url(normalized) {
        None => None,
        Some(u) => match u.host_str {
            None => None,
            Some(h) => if wildcard {
                match strip_prefix(h, "__wildcard__."@) {
                    None => None,
                    Some(suffix) => Some(
                        PatternView {
                            scheme: u.scheme,
                            host_rule: HostRuleView::WildcardSuffix(suffix),
                            path_prefix: pattern_path(u.path),
                        },
                    ),
                }
            } else {
                Some(
                    PatternView {
                        scheme: u.scheme,
                        host_rule: HostRuleView::Exact(h),
                        path_prefix: pattern_path(u.path),
                    },
                )
            },
        },
    }
}

/// The parsed patterns of `raw`, in order, with unparseable ones left out.
pub open spec fn patterns_of(raw: Seq<Seq<char>>) -> Seq<PatternView>
    decreases raw.len(),
{
    if raw.len() == 0 {
        Seq::empty()
    } else {
        let prev = patterns_of(raw.drop_last());
        match pattern_of(raw.last()) {
            Some(p) => prev.push(p),
            None => prev,
        }
    }
}

/// `host` satisfies the host rule.
pub open spec fn host_rule_admits(rule: HostRuleView, host: Seq<char>) -> bool {
    match rule {
        HostRuleView::Exact(h) => eq_ignore_ascii_case(h, host),
        HostRuleView::WildcardSuffix(suffix) => {
            &&& ends_with_ignore_ascii_case(host, suffix)
            &&& host.len() > suffix.len()
            &&& host[host.len() - suffix.len() - 1] == '.'
        },
    }
}

/// A request URL with these parts and this host satisfies the pattern.
pub open spec fn pattern_admits(pat: PatternView, u: UrlFacts, host: Seq<char>) -> bool {
    &&& pat.scheme == u.scheme
    &&& host_rule_admits(pat.host_rule, host)
    &&& (pat.path_prefix == "/"@ || starts_with(u.path, pat.path_prefix))
}

/// The matcher's decision for `url`.
pub open spec fn matcher_allows(m: MatcherView, url: Seq<char>) -> bool {
    parts_allowed(m, parsed_url(url))
}

/// The matcher's decision for a request URL with these parts (`None` when it
/// does not parse).
pub open spec fn parts_allowed(m: MatcherView, parsed: Option<UrlFacts>) -> bool {
    match parsed {
        None => false,
        Some(u) => {
            &&& (u.scheme == "https"@ || m.allow_http)
            &&& match u.host_str {
                None => false,
                Some(h) => exists|i: int|
                    0 <= i < m.patterns.len() && pattern_admits(m.patterns[i], u, h),
            }
        },
    }
}

/// Strict URL allow-list. See the module documentation for the rules.
#[derive(Debug, Clone)]
pub struct UrlMatcher {
    patterns: Vec<ParsedPattern>,
    raw: Vec<String>,
    allow_http: bool,
}

impl View for UrlMatcher {
    type V = MatcherView;

    closed spec fn view(&self) -> MatcherView {
        MatcherView {
            patterns: self.patterns@.map_values(|p: ParsedPattern| p.view()),
            raw: self.raw.deep_view(),
            allow_http: self.allow_http,
        }
    }
}

impl Default for UrlMatcher {
    /// The empty allow-list: nothing is allowed.
    fn default() -> (r: Self)
        ensures
            r@ == (MatcherView { patterns: Seq::empty(), raw: Seq::empty(), allow_http: false }),
    {
        let r = UrlMatcher { patterns: Vec::new(), raw: Vec::new(), allow_http: false };
        assert(r@.patterns =~= Seq::<PatternView>::empty());
        assert(r@.raw =~= Seq::<Seq<char>>::empty());
        r
    }
}

impl UrlMatcher {
    /// Build a matcher from allow-list patterns. Patterns that do not parse
    /// are ignored (but still reported by [`UrlMatcher::patterns`]); plain
    /// http is off.
    pub fn from_patterns(patterns: Vec<String>) -> (r: Self)
        ensures
            r@ == (MatcherView {
                patterns: patterns_of(patterns.deep_view()),
                raw: patterns.deep_view(),
                allow_http: false,
            }),
    {
        let mut parsed: Vec<ParsedPattern> = Vec::new();
        let n = patterns.len();
        let mut i: usize = 0;
        while i < n
            invariant
                n == patterns.len(),
                i <= n,
                parsed@.map_values(|p: ParsedPattern| p.view()) =~= patterns_of(
                    patterns.deep_view().subrange(0, i as int),
                ),
            decreases n - i,
        {
            let ghost before = parsed@;
            let maybe = Self::parse_pattern(patterns[i].as_str());
            proof {
                let raw = patterns.deep_view().subrange(0, i + 1);
                assert(raw.drop_last() =~= patterns.deep_view().subrange(0, i as int));
                assert(raw.last() == patterns[i as int]@);
            }
            match maybe {
                Some(pp) => {
                    parsed.push(pp);
                    assert(parsed@.map_values(|p: ParsedPattern| p.view()) =~= before.map_values(
                        |p: ParsedPattern| p.view(),
                    ).push(pp.view()));
                },
                None => {},
            }
            i = i + 1;
        }
        assert(patterns.deep_view().subrange(0, n as int) =~= patterns.deep_view());
        UrlMatcher { patterns: parsed, raw: patterns, allow_http: false }
    }

    /// The same matcher with the plain-http toggle set to `allow`.
    pub fn with_allow_http(self, allow: bool) -> (r: Self)
        ensures
            r@ == (MatcherView { allow_http: allow, ..self@ }),
    {
        let mut m = self;
        m.allow_http = allow;
        m
    }

    /// The patterns exactly as they were supplied, parseable or not.
    pub fn patterns(&self) -> (r: &[String])
        ensures
            r.deep_view() == self@.raw,
    {
        let r = self.raw.as_slice();
        assert(r.deep_view() =~= self.raw.deep_view());
        r
    }

    /// Whether plain-http requests are consulted at all.
    pub fn allows_http(&self) -> (r: bool)
        ensures
            r == self@.allow_http,
    {
        self.allow_http
    }

    fn parse_pattern(pattern: &str) -> (r: Option<ParsedPattern>)
        ensures
            match r {
                Some(pp) => pattern_of(pattern@) == Some(pp.view()),
                None => pattern_of(pattern@) is None,
            },
    {
        proof {
            reveal_strlit("*");
        }
        let stripped = str_trim_end_matches(pattern, "*");
        let (wildcard, normalized) = match str_strip_prefix(stripped, "https://*.") {
            Some(rest) => (true, concat("https://__wildcard__.", rest)),
            None => match str_strip_prefix(stripped, "http://*.") {
                Some(rest) => (true, concat("http://__wildcard__.", rest)),
                None => (false, String::from_str(stripped)),
            },
        };
        assert(normalize_pattern(pattern@) == (wildcard, normalized@));
        let parsed = match parse_url(normalized.as_str()) {
            Some(u) => u,
            None => return None,
        };
        let host = match &parsed.host_str {
            Some(h) => h,
            None => return None,
        };
        let path_prefix = if parsed.path.unicode_len() == 0 || str_eq(parsed.path.as_str(), "/") {
            String::from_str("/")
        } else {
            parsed.path.clone()
        };
        let host_rule = if wildcard {
            match str_strip_prefix(host.as_str(), "__wildcard__.") {
                Some(suffix) => HostRule::WildcardSuffix(String::from_str(suffix)),
                None => return None,
            }
        } else {
            HostRule::Exact(host.clone())
        };
        Some(ParsedPattern { scheme: parsed.scheme.clone(), host_rule, path_prefix })
    }

    fn host_matches(rule: &HostRule, host: &str) -> (r: bool)
        ensures
            r == host_rule_admits(rule.view(), host@),
    {
        match rule {
            HostRule::Exact(h) => str_eq_ignore_ascii_case(h.as_str(), host),
            HostRule::WildcardSuffix(suffix) => {
                if !str_ends_with_ignore_ascii_case(host, suffix.as_str()) {
                    return false;
                }
                let n = host.unicode_len();
                let m = suffix.unicode_len();
                if n <= m {
                    return false;
                }
                host.get_char(n - m - 1) == '.'
            },
        }
    }

    fn pattern_matches(pat: &ParsedPattern, u: &UrlParts, host: &str) -> (r: bool)
        ensures
            r == pattern_admits(pat.view(), u@, host@),
    {
        if !str_eq(pat.scheme.as_str(), u.scheme.as_str()) {
            return false;
        }
        if !Self::host_matches(&pat.host_rule, host) {
            return false;
        }
        if str_eq(pat.path_prefix.as_str(), "/") {
            return true;
        }
        str_starts_with(u.path.as_str(), pat.path_prefix.as_str())
    }

    /// Whether a request to `url` is on the allow-list.
    pub fn is_allowed(&self, url: &str) -> (r: bool)
        ensures
            r == matcher_allows(self@, url@),
    {
        let parsed = parse_url(url);
        self.allows_parsed(&parsed)
    }

    /// Whether a request URL with these parts is on the allow-list: it must
    /// have parsed, be `https` unless plain http is allowed, have a host, and
    /// satisfy some pattern.
    pub fn allows_parsed(&self, parsed: &Option<UrlParts>) -> (r: bool)
        ensures
            r == parts_allowed(self@, opt_url_view(*parsed)),
    {
        let u = match parsed {
            Some(u) => u,
            None => return false,
        };
        if !str_eq(u.scheme.as_str(), "https") && !self.allow_http {
            return false;
        }
        let host = match &u.host_str {
            Some(h) => h.as_str(),
            None => return false,
        };
        let n = self.patterns.len();
        let mut i: usize = 0;
        while i < n
            invariant
                n == self.patterns.len(),
                i <= n,
                opt_url_view(*parsed) == Some(u@),
                u@.host_str == Some(host@),
                u@.scheme == "https"@ || self.allow_http,
                forall|j: int|
                    0 <= j < i ==> !pattern_admits(self.patterns@[j].view(), u@, host@),
            decreases n - i,
        {
            if Self::pattern_matches(&self.patterns[i], u, host) {
                assert(self@.patterns[i as int] == self.patterns@[i as int].view());
                return true;
            }
            i = i + 1;
        }
        assert forall|j: int| 0 <= j < self@.patterns.len() implies !pattern_admits(
            self@.patterns[j],
            u@,
            host@,
        ) by {
            assert(self@.patterns[j] == self.patterns@[j].view());
        }
        false
    }
}

/// An allow-list with no parsed patterns allows nothing.
pub proof fn law_empty_allow_list_denies(m: MatcherView, url: Seq<char>)
    requires
        m.patterns.len() == 0,
    ensures
        !matcher_allows(m, url),
{
}

/// Without the plain-http toggle, only `https` requests are ever allowed.
pub proof fn law_https_required_without_toggle(m: MatcherView, url: Seq<char>)
    requires
        matcher_allows(m, url),
        !m.allow_http,
    ensures
        parsed_url(url) is Some,
        parsed_url(url).unwrap().scheme == "https"@,
{
}

/// An allowed request is admitted by one pattern on all three facets: the
/// same scheme, a host the pattern's host rule admits, and a path under the
/// pattern's path prefix.
pub proof fn law_allowed_request_matches_one_pattern(m: MatcherView, url: Seq<char>)
    requires
        matcher_allows(m, url),
    ensures
        exists|i: int|
            0 <= i < m.patterns.len() && m.patterns[i].scheme == parsed_url(url).unwrap().scheme
                && host_rule_admits(
                m.patterns[i].host_rule,
                parsed_url(url).unwrap().host_str.unwrap(),
            ) && (m.patterns[i].path_prefix == "/"@ || starts_with(
                parsed_url(url).unwrap().path,
                m.patterns[i].path_prefix,
            )),
{
}

/// The `i`-th supplied pattern parses and admits a request with these parts
/// and this host.
pub open spec fn supplied_pattern_admits(
    raw: Seq<Seq<char>>,
    i: int,
    u: UrlFacts,
    host: Seq<char>,
) -> bool {
    &&& 0 <= i < raw.len()
    &&& pattern_of(raw[i]) is Some
    &&& pattern_admits(pattern_of(raw[i]).unwrap(), u, host)
}

/// Every parsed pattern comes from one of the supplied strings.
proof fn lemma_parsed_pattern_has_a_source(raw: Seq<Seq<char>>, k: int)
    requires
        0 <= k < patterns_of(raw).len(),
    ensures
        exists|i: int| 0 <= i < raw.len() && #[trigger] pattern_of(raw[i]) == Some(patterns_of(raw)[k]),
    decreases raw.len(),
{
    let prev = patterns_of(raw.drop_last());
    if k < prev.len() {
        lemma_parsed_pattern_has_a_source(raw.drop_last(), k);
        let i = choose|i: int|
            0 <= i < raw.drop_last().len() && #[trigger] pattern_of(raw.drop_last()[i]) == Some(
                prev[k],
            );
        assert(raw[i] == raw.drop_last()[i]);
        assert(pattern_of(raw[i]) == Some(patterns_of(raw)[k]));
    } else {
        assert(pattern_of(raw[raw.len() - 1]) == Some(patterns_of(raw)[k]));
    }
}

/// Every supplied string that parses is kept among the parsed patterns.
proof fn lemma_supplied_pattern_is_kept(raw: Seq<Seq<char>>, i: int)
    requires
        0 <= i < raw.len(),
        pattern_of(raw[i]) is Some,
    ensures
        exists|k: int|
            0 <= k < patterns_of(raw).len() && #[trigger] patterns_of(raw)[k] == pattern_of(
                raw[i],
            ).unwrap(),
    decreases raw.len(),
{
    let prev = patterns_of(raw.drop_last());
    if i == raw.len() - 1 {
        assert(patterns_of(raw)[prev.len() as int] == pattern_of(raw[i]).unwrap());
    } else {
        assert(raw.drop_last()[i] == raw[i]);
        lemma_supplied_pattern_is_kept(raw.drop_last(), i);
        let k = choose|k: int|
            0 <= k < prev.len() && #[trigger] prev[k] == pattern_of(raw.drop_last()[i]).unwrap();
        assert(patterns_of(raw)[k] == prev[k]);
    }
}

/// Stated over the strings a matcher was built from: a request is allowed
/// exactly when it parses, has a host, is `https` unless plain http is on,
/// and one of the supplied patterns parses and admits it on scheme, host and
/// path. Patterns that do not parse grant nothing.
pub proof fn law_allowed_iff_a_supplied_pattern_admits(
    raw: Seq<Seq<char>>,
    allow_http: bool,
    url: Seq<char>,
)
    ensures
        matcher_allows(MatcherView { patterns: patterns_of(raw), raw, allow_http }, url) <==> {
            &&& parsed_url(url) is Some
            &&& parsed_url(url).unwrap().host_str is Some
            &&& (parsed_url(url).unwrap().scheme == "https"@ || allow_http)
            &&& exists|i: int|
                #[trigger] supplied_pattern_admits(
                    raw,
                    i,
                    parsed_url(url).unwrap(),
                    parsed_url(url).unwrap().host_str.unwrap(),
                )
        },
{
    let m = MatcherView { patterns: patterns_of(raw), raw, allow_http };
    if parsed_url(url) is Some && parsed_url(url).unwrap().host_str is Some {
        let u = parsed_url(url).unwrap();
        let h = u.host_str.unwrap();
        if matcher_allows(m, url) {
            let k = choose|k: int| 0 <= k < m.patterns.len() && pattern_admits(m.patterns[k], u, h);
            lemma_parsed_pattern_has_a_source(raw, k);
            let i = choose|i: int|
                0 <= i < raw.len() && #[trigger] pattern_of(raw[i]) == Some(patterns_of(raw)[k]);
            assert(supplied_pattern_admits(raw, i, u, h));
        }
        if (u.scheme == "https"@ || allow_http) && exists|i: int|
            #[trigger] supplied_pattern_admits(raw, i, u, h) {
            let i = choose|i: int| #[trigger] supplied_pattern_admits(raw, i, u, h);
            lemma_supplied_pattern_is_kept(raw, i);
            let k = choose|k: int|
                0 <= k < patterns_of(raw).len() && #[trigger] patterns_of(raw)[k] == pattern_of(
                    raw[i],
                ).unwrap();
            assert(pattern_admits(m.patterns[k], u, h));
        }
    }
}

/// A wildcard host rule needs at least one label before its suffix: it never
/// admits the bare suffix, and it admits a host only across a `.` boundary.
pub proof fn law_wildcard_needs_a_label(suffix: Seq<char>, host: Seq<char>)
    ensures
        host_rule_admits(HostRuleView::WildcardSuffix(suffix), host) ==> {
            &&& !eq_ignore_ascii_case(host, suffix)
            &&& host[host.len() - suffix.len() - 1] == '.'
        },
{
}

/// Switching plain http on never withdraws a request that was allowed.
pub proof fn law_toggle_only_widens(m: MatcherView, url: Seq<char>)
    requires
        matcher_allows(m, url),
    ensures
        matcher_allows(MatcherView { allow_http: true, ..m }, url),
{
    let u = parsed_url(url).unwrap();
    let h = u.host_str.unwrap();
    let i = choose|i: int| 0 <= i < m.patterns.len() && pattern_admits(m.patterns[i], u, h);
    assert(pattern_admits(MatcherView { allow_http: true, ..m }.patterns[i], u, h));
}

/// The query and the parsed host kind play no part in the decision: two
/// requests that agree on scheme, host text and path are allowed alike, so
/// an allowed host named inside a query string grants nothing.
pub proof fn law_only_scheme_host_and_path_decide(m: MatcherView, u: UrlFacts, v: UrlFacts)
    requires
        u.scheme == v.scheme,
        u.host_str == v.host_str,
        u.path == v.path,
    ensures
        parts_allowed(m, Some(u)) == parts_allowed(m, Some(v)),
{
    if u.host_str is Some {
        let h = u.host_str.unwrap();
        assert forall|i: int| 0 <= i < m.patterns.len() implies pattern_admits(m.patterns[i], u, h)
            == pattern_admits(m.patterns[i], v, h) by {}
    }
}

/// A wildcard rule admits every host that ends with its suffix (ignoring
/// ASCII case) right after a `.`, however many labels come before that dot:
/// `*.example.com` admits `api.example.com` and `eu.api.example.com` alike.
pub proof fn law_wildcard_admits_every_host_under_its_suffix(suffix: Seq<char>, host: Seq<char>)
    requires
        host.len() > suffix.len(),
        eq_ignore_ascii_case(host.subrange(host.len() - suffix.len(), host.len() as int), suffix),
        host[host.len() - suffix.len() - 1] == '.',
    ensures
        host_rule_admits(HostRuleView::WildcardSuffix(suffix), host),
{
}

/// A request is allowed by a wildcard pattern whenever its scheme is the
/// pattern's, its path lies under the pattern's prefix, and its host ends
/// with the pattern's suffix after a `.`, with any labels before it.
pub proof fn law_wildcard_pattern_admits_deeper_hosts(pat: PatternView, u: UrlFacts, host: Seq<char>)
    requires
        pat.host_rule matches HostRuleView::WildcardSuffix(suffix) && host.len() > suffix.len()
            && eq_ignore_ascii_case(host.subrange(host.len() - suffix.len(), host.len() as int), suffix)
            && host[host.len() - suffix.len() - 1] == '.',
        pat.scheme == u.scheme,
        pat.path_prefix == "/"@ || starts_with(u.path, pat.path_prefix),
    ensures
        pattern_admits(pat, u, host),
{
}

} // verus!
