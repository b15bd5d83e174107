//! Per-extension network permission resolution.
//!
//! **Replace semantics:** when an extension declares network patterns, those
//! patterns are its whole allow-list and the host-level override is ignored;
//! when it declares none, the host-level override applies unchanged.
//!
//! **Loopback-http rule:** the matcher's plain-http toggle is matcher-wide, so
//! a declared `http://` pattern to a public host is dropped (it could never be
//! honoured safely), and the toggle is switched on only when at least one
//! loopback `http://` pattern is declared. Patterns are classified with the
//! same URL parser the matcher uses, so the two cannot disagree about where
//! the authority ends.
use vstd::prelude::*;
use crate::text::{
    contains_seq, eq_ignore_ascii_case, lemma_replace_absent, starts_with, replace_all, str_eq, str_eq_ignore_ascii_case, str_replace,
    str_trim_end_matches, trim_end_matches,
};
use crate::url_matcher::{normalize_pattern, pattern_of, patterns_of, MatcherView, UrlMatcher};
use crate::url_parts::{
    ipv4_is_loopback, ipv6_is_loopback, opt_url_view, parse_url, parsed_url, HostFacts, UrlFacts, UrlHost,
    UrlParts,
};

verus! {

/// How a declared pattern is classified for the plain-http rule.
#[derive(Debug, Clone, Copy, PartialEq, Eq)]
pub enum HttpClass {
    /// Plain http to a loopback address — kept, and the toggle switched on.
    Loopback,
    /// Plain http to anything else — dropped.
    Public,
    /// Not plain http (https, or a pattern the matcher ignores anyway).
    Other,
}

/// The form in which a declared pattern reaches the URL parser, the same
/// form the matcher parses: trailing `*` removed and every `*.` host label after `://` replaced by a
/// placeholder label.
pub open spec fn classify_input(p: Seq<char>) -> Seq<char> {
    replace_all(trim_end_matches(p, "*"@), "://*."@, "://__wildcard__."@)
}

/// A parsed host that plain http may reach: an IPv4 address in
/// `127.0.0.0/8`, the IPv6 address `::1`, or exactly the name `localhost`
/// (ignoring ASCII case).
pub open spec fn is_loopback_host(h: HostFacts) -> bool {
    match h {
        HostFacts::Ipv4(a) => ipv4_is_loopback(a),
        HostFacts::Ipv6(a) => ipv6_is_loopback(a),
        HostFacts::Domain(d) => eq_ignore_ascii_case(d, "localhost"@),
    }
}

/// The class of a declared pattern.
pub open spec fn class_of(p: Seq<char>) -> HttpClass {
    class_of_parts(parsed_url(classify_input(p)))
}

/// The class of a pattern whose normalized form parsed into these parts
/// (`None` when it did not parse).
pub open spec fn class_of_parts(parsed: Option<UrlFacts>) -> HttpClass {
    match parsed {
        None => HttpClass::Other,
        Some(u) => if u.scheme != "http"@ {
            HttpClass::Other
        } else {
            match u.host {
                Some(h) => if is_loopback_host(h) {
                    HttpClass::Loopback
                } else {
                    HttpClass::Public
                },
                None => HttpClass::Public,
            }
        },
    }
}

/// The declared patterns that survive the plain-http drop, in order.
pub open spec fn kept_patterns(declared: Seq<Seq<char>>) -> Seq<Seq<char>>
    decreases declared.len(),
{
    if declared.len() == 0 {
        Seq::empty()
    } else {
        let prev = kept_patterns(declared.drop_last());
        if class_of(declared.last()) == HttpClass::Public {
            prev
        } else {
            prev.push(declared.last())
        }
    }
}

/// Some declared pattern is plain http to a loopback host.
pub open spec fn declares_loopback_http(declared: Seq<Seq<char>>) -> bool {
    exists|i: int| 0 <= i < declared.len() && class_of(declared[i]) == HttpClass::Loopback
}

/// The allow-list an extension with these declared patterns gets, given the
/// host-level override.
pub open spec fn effective_view(declared: Seq<Seq<char>>, host_override: MatcherView) -> MatcherView {
    if declared.len() == 0 {
        host_override
    } else {
        MatcherView {
            patterns: patterns_of(kept_patterns(declared)),
            raw: kept_patterns(declared),
            allow_http: declares_loopback_http(declared),
        }
    }
}

/// Classify a declared pattern with the same parser the matcher uses.
pub fn classify_http_pattern(pattern: &str) -> (r: HttpClass)
    ensures
        r == class_of(pattern@),
{
    proof {
        reveal_strlit("*");
        reveal_strlit("://*.");
    }
    let trimmed = str_trim_end_matches(pattern, "*");
    let normalized = str_replace(trimmed, "://*.", "://__wildcard__.");
    let parsed = parse_url(normalized.as_str());
    classify_parsed(&parsed)
}

/// Classify a pattern from the parts its normalized form parsed into:
/// plain http to a loopback host, plain http to anything else, or neither.
pub fn classify_parsed(parsed: &Option<UrlParts>) -> (r: HttpClass)
    ensures
        r == class_of_parts(opt_url_view(*parsed)),
{
    let url = match parsed {
        Some(u) => u,
        None => return HttpClass::Other,
    };
    if !str_eq(url.scheme.as_str(), "http") {
        return HttpClass::Other;
    }
    match &url.host {
        Some(h) => if host_is_loopback(h) {
            HttpClass::Loopback
        } else {
            HttpClass::Public
        },
        None => HttpClass::Public,
    }
}

/// Whether a parsed host is one plain http may reach: an IPv4 address in
/// `127.0.0.0/8`, the IPv6 address `::1`, or the name `localhost` in any
/// ASCII case.
pub fn host_is_loopback(h: &UrlHost) -> (r: bool)
    ensures
        r == is_loopback_host(h@),
{
    match h {
        UrlHost::Ipv4(a) => *a / 16777216 == 127,
        UrlHost::Ipv6(a) => *a == 1,
        UrlHost::Domain(d) => str_eq_ignore_ascii_case(d.as_str(), "localhost"),
    }
}

/// Select the URL matcher for a single extension instantiation.
///
/// With no declared patterns the host-level override is returned unchanged.
/// Otherwise the matcher is built from the declared patterns alone, with
/// public-host plain-http patterns dropped and plain http switched on exactly
/// when a loopback plain-http pattern is declared.
pub fn effective_url_matcher(declared_patterns: &[String], override_matcher: UrlMatcher) -> (r:
    UrlMatcher)
    ensures
        r@ == effective_view(declared_patterns.deep_view(), override_matcher@),
{
    let n = declared_patterns.len();
    if n == 0 {
        return override_matcher;
    }
    let ghost declared = declared_patterns.deep_view();
    let mut patterns: Vec<String> = Vec::new();
    let mut allow_loopback_http = false;
    let mut i: usize = 0;
    while i < n
        invariant
            n == declared_patterns@.len(),
            declared == declared_patterns.deep_view(),
            i <= n,
            patterns.deep_view() =~= kept_patterns(declared.subrange(0, i as int)),
            allow_loopback_http == exists|j: int|
                0 <= j < i && class_of(declared[j]) == HttpClass::Loopback,
        decreases n - i,
    {
        let p = &declared_patterns[i];
        let ghost before = patterns.deep_view();
        proof {
            let pre = declared.subrange(0, i + 1);
            assert(pre.drop_last() =~= declared.subrange(0, i as int));
            assert(pre.last() == p@);
            assert(declared[i as int] == p@);
        }
        match classify_http_pattern(p.as_str()) {
            HttpClass::Loopback => {
                allow_loopback_http = true;
                patterns.push(p.clone());
                assert(patterns.deep_view() =~= before.push(p@));
            },
            HttpClass::Public => {},
            HttpClass::Other => {
                patterns.push(p.clone());
                assert(patterns.deep_view() =~= before.push(p@));
            },
        }
        i = i + 1;
    }
    assert(declared.subrange(0, n as int) =~= declared);
    UrlMatcher::from_patterns(patterns).with_allow_http(allow_loopback_http)
}

proof fn lemma_kept_patterns(declared: Seq<Seq<char>>)
    ensures
        forall|i: int|
            0 <= i < kept_patterns(declared).len() ==> class_of(kept_patterns(declared)[i])
                != HttpClass::Public,
        forall|i: int|
            0 <= i < kept_patterns(declared).len() ==> declared.contains(kept_patterns(declared)[i]),
        forall|j: int|
            0 <= j < declared.len() && class_of(declared[j]) != HttpClass::Public ==> kept_patterns(
                declared,
            ).contains(declared[j]),
        kept_patterns(declared).len() <= declared.len(),
    decreases declared.len(),
{
    if declared.len() > 0 {
        let prev = declared.drop_last();
        lemma_kept_patterns(prev);
        let k = kept_patterns(declared);
        let kp = kept_patterns(prev);
        assert forall|i: int| 0 <= i < k.len() implies declared.contains(k[i]) by {
            if i < kp.len() {
                assert(k[i] == kp[i]);
                let w = choose|w: int| 0 <= w < prev.len() && prev[w] == kp[i];
                assert(declared[w] == prev[w]);
            } else {
                assert(k[i] == declared.last());
                assert(declared[declared.len() - 1] == declared.last());
            }
        }
        assert forall|j: int|
            0 <= j < declared.len() && class_of(declared[j]) != HttpClass::Public implies k.contains(
            declared[j],
        ) by {
            if j < prev.len() {
                assert(prev[j] == declared[j]);
                let w = choose|w: int| 0 <= w < kp.len() && kp[w] == prev[j];
                assert(k[w] == kp[w]);
            } else {
                assert(k[k.len() - 1] == declared.last());
            }
        }
        assert forall|i: int| 0 <= i < k.len() implies class_of(k[i]) != HttpClass::Public by {
            if i < kp.len() {
                assert(k[i] == kp[i]);
            }
        }
    }
}

/// An extension that declares no network patterns gets the host-level
/// override unchanged.
pub proof fn law_empty_declaration_uses_override(host_override: MatcherView)
    ensures
        effective_view(Seq::empty(), host_override) == host_override,
{
}

/// A non-empty declaration replaces the host-level override: the effective
/// allow-list does not depend on the override at all.
pub proof fn law_declaration_replaces_override(
    declared: Seq<Seq<char>>,
    override_a: MatcherView,
    override_b: MatcherView,
)
    requires
        declared.len() > 0,
    ensures
        effective_view(declared, override_a) == effective_view(declared, override_b),
{
}

/// No plain-http pattern to a public host survives into an extension's
/// declared allow-list; every other declared pattern does.
pub proof fn law_public_http_patterns_are_dropped(declared: Seq<Seq<char>>, host_override: MatcherView)
    requires
        declared.len() > 0,
    ensures
        forall|i: int|
            0 <= i < effective_view(declared, host_override).raw.len() ==> class_of(
                effective_view(declared, host_override).raw[i],
            ) != HttpClass::Public,
        forall|i: int|
            0 <= i < effective_view(declared, host_override).raw.len() ==> declared.contains(
                effective_view(declared, host_override).raw[i],
            ),
        forall|j: int|
            0 <= j < declared.len() && class_of(declared[j]) != HttpClass::Public
                ==> effective_view(declared, host_override).raw.contains(declared[j]),
{
    lemma_kept_patterns(declared);
}

/// Plain http is switched on for a declared allow-list exactly when some
/// declared pattern is plain http to a loopback host.
pub proof fn law_plain_http_only_for_loopback(declared: Seq<Seq<char>>, host_override: MatcherView)
    requires
        declared.len() > 0,
    ensures
        effective_view(declared, host_override).allow_http <==> exists|i: int|
            0 <= i < declared.len() && class_of(declared[i]) == HttpClass::Loopback,
{
}

/// With no declaration and an empty host-level override, every request is
/// denied.
pub proof fn law_default_posture_denies_everything(url: Seq<char>)
    ensures
        !crate::url_matcher::matcher_allows(
            effective_view(
                Seq::empty(),
                MatcherView { patterns: Seq::empty(), raw: Seq::empty(), allow_http: false },
            ),
            url,
        ),
{
}

/// A declared pattern that survives the plain-http drop and is consulted as
/// a plain-http pattern names a loopback host: an IPv4 address in
/// `127.0.0.0/8`, `::1`, or `localhost`. Stated for patterns without a `*.`
/// wildcard label, which is the form the matcher and the classifier read
/// identically.
pub proof fn law_surviving_plain_http_pattern_is_loopback(p: Seq<char>)
    requires
        class_of(p) != HttpClass::Public,
        !contains_seq(trim_end_matches(p, "*"@), "://*."@),
        pattern_of(p) is Some,
        pattern_of(p).unwrap().scheme == "http"@,
    ensures
        parsed_url(trim_end_matches(p, "*"@)) is Some,
        parsed_url(trim_end_matches(p, "*"@)).unwrap().host is Some,
        is_loopback_host(parsed_url(trim_end_matches(p, "*"@)).unwrap().host.unwrap()),
{
    reveal_strlit("://*.");
    reveal_strlit("https://*.");
    reveal_strlit("http://*.");
    reveal_strlit("http");
    let stripped = trim_end_matches(p, "*"@);
    lemma_replace_absent(stripped, "://*."@, "://__wildcard__."@);
    assert(classify_input(p) == stripped);
    if starts_with(stripped, "https://*."@) {
        let lit = "https://*."@;
        assert(stripped.subrange(0, 10) == lit);
        assert forall|k: int| 0 <= k < 5 implies stripped[5 + k] == "://*."@[k] by {
            assert(stripped.subrange(0, 10)[5 + k] == lit[5 + k]);
        }
        assert(stripped.subrange(5, stripped.len() as int).subrange(0, 5) =~= "://*."@);
        assert(starts_with(stripped.subrange(5, stripped.len() as int), "://*."@));
    }
    if starts_with(stripped, "http://*."@) {
        let lit = "http://*."@;
        assert(stripped.subrange(0, 9) == lit);
        assert forall|k: int| 0 <= k < 5 implies stripped[4 + k] == "://*."@[k] by {
            assert(stripped.subrange(0, 9)[4 + k] == lit[4 + k]);
        }
        assert(stripped.subrange(4, stripped.len() as int).subrange(0, 5) =~= "://*."@);
        assert(starts_with(stripped.subrange(4, stripped.len() as int), "://*."@));
    }
    assert(normalize_pattern(p) == (false, stripped));
}

} // verus!
