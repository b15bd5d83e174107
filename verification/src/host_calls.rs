//! The decisions behind the host functions an extension may call: which
//! secrets it may read, which extensions it may call and how deep, which LLM
//! role a completion runs under, and which network requests and responses it
//! may see.
use vstd::prelude::*;
use crate::host_ports::{SecretsBackend, SecretsError};
use crate::text::{
    concat, decimal, decimal_string, first_index_of, has_char, join, starts_with, str_eq,
    str_find_char, str_starts_with, str_trim_end_matches, str_trim_start_matches, trim_end_matches,
    trim_start_matches,
};
use crate::url_matcher::{matcher_allows, UrlMatcher};
use crate::url_parts::{parsed_url, UrlFacts};

verus! {

/// Maximum number of nested `host.broker.call-extension` hops in a single
/// dispatch chain.
pub const MAX_BROKER_DEPTH: u32 = 8;

/// Maximum response body handed back to a guest, in bytes (32 MiB).
pub const MAX_RESPONSE_BYTES: u64 = 33554432;

/// The part of a secret declaration after its first `:` (the whole
/// declaration when it has none).
pub open spec fn after_scheme(d: Seq<char>) -> Seq<char> {
    if has_char(d, ':') {
        let i = choose|i: int| first_index_of(d, ':', i);
        d.subrange(i + 1, d.len() as int)
    } else {
        d
    }
}

/// A secret declaration names at least one path segment: after dropping an
/// optional `scheme:` prefix and the slashes around the rest, something is
/// left.
pub open spec fn declaration_names_a_path(d: Seq<char>) -> bool {
    trim_end_matches(trim_start_matches(after_scheme(d), "/"@), "/"@).len() > 0
}

/// A single declaration grants `uri`: it names a path, and `uri` is the
/// declaration itself or lies under it at a `/` boundary.
pub open spec fn declaration_grants(d: Seq<char>, uri: Seq<char>) -> bool {
    &&& declaration_names_a_path(d)
    &&& (uri == d || (starts_with(uri, d) && uri.len() > d.len() && uri[d.len() as int] == '/'))
}

/// Some declaration grants `uri`.
pub open spec fn secret_access_granted(declared: Seq<Seq<char>>, uri: Seq<char>) -> bool {
    exists|i: int| 0 <= i < declared.len() && declaration_grants(declared[i], uri)
}

/// The message a denied secret read is answered with.
pub open spec fn secret_denied_message(uri: Seq<char>) -> Seq<char> {
    "permission denied for secret: "@ + uri
}

/// The message a failed backend lookup is reported with.
pub open spec fn secret_error_text(e: SecretsError) -> Seq<char> {
    match e {
        SecretsError::NotFound(k) => "secret not found: "@ + k@,
        SecretsError::Backend(m) => "secrets backend error: "@ + m@,
    }
}

/// Does a declared secret prefix actually name something?
///
/// `""` would cover every URI starting with `/`, and `"secrets:"` every
/// `secrets://…` URI, because the character at the prefix length is `/` in
/// both cases. A declaration that names no path segment is a wildcard, not a
/// grant, and is refused.
pub fn declaration_is_specific(declared: &str) -> (r: bool)
    ensures
        r == declaration_names_a_path(declared@),
{
    proof {
        reveal_strlit("/");
    }
    let len = declared.unicode_len();
    let after = match str_find_char(declared, ':') {
        Some(i) => declared.substring_char(i + 1, len),
        None => declared,
    };
    let trimmed = str_trim_end_matches(str_trim_start_matches(after, "/"), "/");
    trimmed.unicode_len() > 0
}

/// Whether `allowed` grants `uri`.
pub fn declaration_grants_uri(allowed: &str, uri: &str) -> (r: bool)
    ensures
        r == declaration_grants(allowed@, uri@),
{
    if !declaration_is_specific(allowed) {
        return false;
    }
    if str_eq(uri, allowed) {
        return true;
    }
    let n = uri.unicode_len();
    let m = allowed.unicode_len();
    str_starts_with(uri, allowed) && n > m && uri.get_char(m) == '/'
}

/// Whether any of the extension's secret declarations grants `uri`.
pub fn secret_permitted(declared: &[String], uri: &str) -> (r: bool)
    ensures
        r == secret_access_granted(declared.deep_view(), uri@),
{
    let n = declared.len();
    let mut i: usize = 0;
    while i < n
        invariant
            n == declared@.len(),
            i <= n,
            forall|j: int| 0 <= j < i ==> !declaration_grants(declared.deep_view()[j], uri@),
        decreases n - i,
    {
        if declaration_grants_uri(declared[i].as_str(), uri) {
            assert(declared.deep_view()[i as int] == declared@[i as int]@);
            return true;
        }
        i = i + 1;
    }
    false
}

/// The text a backend error is reported to the guest with.
pub fn secret_error_message(e: SecretsError) -> (r: String)
    ensures
        r@ == secret_error_text(e),
{
    match e {
        SecretsError::NotFound(k) => concat("secret not found: ", k.as_str()),
        SecretsError::Backend(m) => concat("secrets backend error: ", m.as_str()),
    }
}

/// The key a guest's secret read is looked up under: the URI itself, exactly
/// as the guest passed it, when a declaration grants it; otherwise the
/// denial reported to the guest.
pub fn secret_lookup_key(declared: &[String], uri: &str) -> (r: Result<String, String>)
    ensures
        secret_access_granted(declared.deep_view(), uri@) ==> (r matches Ok(k) && k@ == uri@),
        !secret_access_granted(declared.deep_view(), uri@) ==> (r matches Err(m) && m@
            == secret_denied_message(uri@)),
{
    if secret_permitted(declared, uri) {
        Ok(String::from_str(uri))
    } else {
        Err(concat("permission denied for secret: ", uri))
    }
}

/// What the guest is answered with, given the backend's answer: a value is
/// handed on unchanged, and an error becomes its text.
pub fn secret_answer(answer: Result<String, SecretsError>) -> (r: Result<String, String>)
    ensures
        match answer {
            Ok(v) => r matches Ok(w) && w@ == v@,
            Err(e) => r matches Err(m) && m@ == secret_error_text(e),
        },
{
    match answer {
        Ok(value) => Ok(value),
        Err(e) => {
            let ghost g = e;
            let m = secret_error_message(e);
            assert(m@ == secret_error_text(g));
            Err(m)
        },
    }
}

/// Serve a guest's secret read: refuse it unless a declaration grants the
/// URI, otherwise ask the backend under the key [`secret_lookup_key`] gives
/// and answer as [`secret_answer`] says.
pub fn get_secret<B: SecretsBackend + ?Sized>(declared: &[String], backend: &B, uri: &str) -> (r:
    Result<String, String>)
    ensures
        !secret_access_granted(declared.deep_view(), uri@) ==> (r matches Err(m) && m@
            == secret_denied_message(uri@)),
        secret_access_granted(declared.deep_view(), uri@) ==> (r matches Err(m) ==> exists|
            e: SecretsError,
        | m@ == secret_error_text(e)),
{
    let key = match secret_lookup_key(declared, uri) {
        Ok(k) => k,
        Err(m) => return Err(m),
    };
    let answer = backend.get(key.as_str());
    secret_answer(answer)
}

/// `kinds` holds `kind`.
pub open spec fn kind_declared(kinds: Seq<Seq<char>>, kind: Seq<char>) -> bool {
    exists|i: int| 0 <= i < kinds.len() && kinds[i] == kind
}

/// The decision on a cross-extension call: the target kind must be
/// declared, and the chain must not already be at the maximum depth.
pub open spec fn broker_gate_result(
    extension_id: Seq<char>,
    kinds: Seq<Seq<char>>,
    kind: Seq<char>,
    depth: u32,
) -> Result<(), Seq<char>> {
    if !kind_declared(kinds, kind) {
        Err(extension_id + " may not call "@ + kind + " extensions"@)
    } else if depth >= MAX_BROKER_DEPTH {
        Err("max broker call depth exceeded ("@ + decimal(depth as nat) + " >= 8)"@)
    } else {
        Ok(())
    }
}

pub open spec fn unit_result_view(r: Result<(), String>) -> Result<(), Seq<char>> {
    match r {
        Ok(()) => Ok(()),
        Err(m) => Err(m@),
    }
}

/// Check a guest's `call-extension` request against its declared kinds and
/// the current call depth.
pub fn broker_call_gate(extension_id: &str, kinds: &[String], kind: &str, depth: u32) -> (r:
    Result<(), String>)
    ensures
        unit_result_view(r) == broker_gate_result(extension_id@, kinds.deep_view(), kind@, depth),
{
    let n = kinds.len();
    let mut i: usize = 0;
    let mut found = false;
    while i < n
        invariant
            n == kinds@.len(),
            i <= n,
            found == exists|j: int| 0 <= j < i && kinds.deep_view()[j] == kind@,
        decreases n - i,
    {
        assert(kinds.deep_view()[i as int] == kinds@[i as int]@);
        if str_eq(kinds[i].as_str(), kind) {
            found = true;
        }
        i = i + 1;
    }
    if !found {
        let mut m = concat(extension_id, " may not call ");
        m.append(kind);
        m.append(" extensions");
        return Err(m);
    }
    if depth >= MAX_BROKER_DEPTH {
        let mut m = String::from_str("max broker call depth exceeded (");
        let d = decimal_string(depth as u64);
        m.append(d.as_str());
        m.append(" >= 8)");
        return Err(m);
    }
    Ok(())
}

/// The LLM role a completion runs under, or why it may not run.
pub open spec fn llm_role_result(declared: Seq<Seq<char>>, hint: Option<Seq<char>>) -> Result<
    Seq<char>,
    Seq<char>,
> {
    match hint {
        Some(h) => if kind_declared(declared, h) {
            Ok(h)
        } else {
            Err("llm role not permitted: "@ + h)
        },
        None => if declared.len() == 1 {
            Ok(declared[0])
        } else if declared.len() == 0 {
            Err("llm role not permitted: extension declares no llm_roles"@)
        } else {
            Err("llm role-hint required: extension declares multiple llm_roles"@)
        },
    }
}

pub open spec fn string_result_view(r: Result<String, String>) -> Result<Seq<char>, Seq<char>> {
    match r {
        Ok(v) => Ok(v@),
        Err(m) => Err(m@),
    }
}

pub open spec fn opt_str_view(o: Option<&str>) -> Option<Seq<char>> {
    match o {
        Some(s) => Some(s@),
        None => None,
    }
}

/// Resolve the role of an LLM completion: a hint must name a declared role;
/// without a hint the sole declared role is used, and otherwise the request
/// is refused.
pub fn resolve_llm_role(declared: &[String], hint: Option<&str>) -> (r: Result<String, String>)
    ensures
        string_result_view(r) == llm_role_result(declared.deep_view(), opt_str_view(hint)),
{
    match hint {
        Some(h) => {
            let n = declared.len();
            let mut i: usize = 0;
            while i < n
                invariant
                    n == declared@.len(),
                    i <= n,
                    opt_str_view(hint) == Some(h@),
                    forall|j: int| 0 <= j < i ==> declared.deep_view()[j] != h@,
                decreases n - i,
            {
                assert(declared.deep_view()[i as int] == declared@[i as int]@);
                if str_eq(declared[i].as_str(), h) {
                    assert(kind_declared(declared.deep_view(), h@));
                    return Ok(String::from_str(h));
                }
                i = i + 1;
            }
            Err(concat("llm role not permitted: ", h))
        },
        None => {
            if declared.len() == 1 {
                assert(declared.deep_view()[0] == declared@[0]@);
                Ok(declared[0].clone())
            } else if declared.len() == 0 {
                Err(String::from_str("llm role not permitted: extension declares no llm_roles"))
            } else {
                Err(
                    String::from_str(
                        "llm role-hint required: extension declares multiple llm_roles",
                    ),
                )
            }
        },
    }
}

/// The decision before a completion is sent: the role must resolve, and an
/// LLM port must be configured.
pub open spec fn completion_gate_result(declared: Seq<Seq<char>>, hint: Option<Seq<char>>, port_configured: bool) -> Result<Seq<char>, Seq<char>> {
    match llm_role_result(declared, hint) {
        Err(m) => Err(m),
        Ok(role) => if port_configured {
            Ok(role)
        } else {
            Err("llm not configured for this runtime"@)
        },
    }
}

/// Decide whether a guest's completion may be sent and under which role: the
/// role is resolved first, then the port must be configured.
pub fn completion_gate(declared: &[String], hint: Option<&str>, port_configured: bool) -> (r: Result<String, String>)
    ensures
        string_result_view(r) == completion_gate_result(declared.deep_view(), opt_str_view(hint), port_configured),
{
    let role = resolve_llm_role(declared, hint);
    match role {
        Err(m) => Err(m),
        Ok(role) => if port_configured {
            Ok(role)
        } else {
            Err(String::from_str("llm not configured for this runtime"))
        },
    }
}

/// `k=v` for each field.
pub open spec fn kv_pairs(fields: Seq<(String, String)>) -> Seq<Seq<char>> {
    fields.map_values(|f: (String, String)| f.0@ + "="@ + f.1@)
}

/// The line a structured log call is rendered as: the message, followed by
/// ` {k=v, …}` when there are fields.
pub open spec fn log_line(message: Seq<char>, fields: Seq<(String, String)>) -> Seq<char> {
    if fields.len() == 0 {
        message
    } else {
        message + " {"@ + join(kv_pairs(fields), ", "@) + "}"@
    }
}

/// Render a structured log call as one line.
pub fn log_kv_message(message: String, fields: &[(String, String)]) -> (r: String)
    ensures
        r@ == log_line(message@, fields@),
{
    if fields.len() == 0 {
        return message;
    }
    let mut pairs: Vec<String> = Vec::new();
    let n = fields.len();
    let mut i: usize = 0;
    while i < n
        invariant
            n == fields@.len(),
            i <= n,
            pairs.deep_view() =~= kv_pairs(fields@).subrange(0, i as int),
        decreases n - i,
    {
        let ghost before = pairs.deep_view();
        let mut p = concat(fields[i].0.as_str(), "=");
        p.append(fields[i].1.as_str());
        assert(kv_pairs(fields@)[i as int] == p@);
        pairs.push(p);
        assert(pairs.deep_view() =~= before.push(p@));
        assert(kv_pairs(fields@).subrange(0, i + 1) =~= kv_pairs(fields@).subrange(0, i as int).push(p@));
        i = i + 1;
    }
    assert(kv_pairs(fields@).subrange(0, n as int) =~= kv_pairs(fields@));
    let slice = pairs.as_slice();
    assert(slice.deep_view() =~= pairs.deep_view());
    assert(slice.deep_view().subrange(0, n as int) =~= kv_pairs(fields@));
    let joined = crate::text::join_strings(slice, n, ", ");
    let mut out = message;
    out.append(" {");
    out.append(joined.as_str());
    out.append("}");
    out
}

/// What `str::to_uppercase` returns (full Unicode case mapping).
pub uninterp spec fn unicode_uppercase(s: Seq<char>) -> Seq<char>;

/// `str::to_uppercase`.
///
/// Trusted: the result is named by [`unicode_uppercase`]; the Unicode case
/// tables themselves are not stated.
#[verifier::external_body]
fn to_uppercase(s: &str) -> (r: String)
    ensures
        r@ == unicode_uppercase(s@),
{
    s.to_uppercase()
}

/// What `url::Url` serializes `url` to after `set_query(None)`; `None` when
/// `url` does not parse.
pub uninterp spec fn query_cleared(url: Seq<char>) -> Option<Seq<char>>;

/// What `url::Url` serializes `url` to after `set_fragment(None)`; `None`
/// when `url` does not parse.
pub uninterp spec fn fragment_cleared(url: Seq<char>) -> Option<Seq<char>>;

/// What `url::Url` serializes `url` to after `set_password(None)`; `None`
/// when `url` does not parse.
pub uninterp spec fn password_cleared(url: Seq<char>) -> Option<Seq<char>>;

/// What `url::Url` serializes `url` to after `set_username("")`; `None` when
/// `url` does not parse.
pub uninterp spec fn username_cleared(url: Seq<char>) -> Option<Seq<char>>;

/// The parts of a URL that can carry credentials and that a log line must
/// not show: no query, no fragment, no user name and no password.
pub open spec fn credentials_hidden(u: UrlFacts) -> bool {
    &&& u.query is None
    &&& u.fragment is None
    &&& u.username.len() == 0
    &&& u.password is None
}

/// Each credential-bearing part that `before` lacks, `after` lacks too.
pub open spec fn hidden_parts_stay_hidden(before: UrlFacts, after: UrlFacts) -> bool {
    &&& (before.query is None ==> after.query is None)
    &&& (before.fragment is None ==> after.fragment is None)
    &&& (before.username.len() == 0 ==> after.username.len() == 0)
    &&& (before.password is None ==> after.password is None)
}

/// What a URL-editing step owes: it yields a text exactly when its input
/// parses, and that text parses again (the `url` crate keeps a serialization
/// that reparses to itself), without any credential-bearing part the input
/// lacked.
pub open spec fn edit_step(input: Seq<char>, output: Option<Seq<char>>) -> bool {
    &&& (output is Some <==> parsed_url(input) is Some)
    &&& (output matches Some(t) ==> {
        &&& parsed_url(t) is Some
        &&& hidden_parts_stay_hidden(parsed_url(input).unwrap(), parsed_url(t).unwrap())
    })
}

/// `Url::parse`, then `Url::set_query(None)`, then serialization.
///
/// Trusted: the result is named by [`query_cleared`]. Claimed from the `url`
/// source: `None` exactly when parsing fails; the serialization parses again
/// (`Url::check_invariants`); it has no query; clearing the query touches no
/// fragment or user info.
#[verifier::external_body]
fn clear_query(url: &str) -> (r: Option<String>)
    ensures
        opt_text(r) == query_cleared(url@),
        edit_step(url@, opt_text(r)),
        r matches Some(t) ==> parsed_url(t@).unwrap().query is None,
{
    let mut u = url::Url::parse(url).ok()?;
    u.set_query(None);
    Some(u.to_string())
}

/// `Url::parse`, then `Url::set_fragment(None)`, then serialization.
///
/// Trusted: the result is named by [`fragment_cleared`]. Claimed from the
/// `url` source: as for [`clear_query`], with the fragment gone and the
/// query and user info untouched.
#[verifier::external_body]
fn clear_fragment(url: &str) -> (r: Option<String>)
    ensures
        opt_text(r) == fragment_cleared(url@),
        edit_step(url@, opt_text(r)),
        r matches Some(t) ==> parsed_url(t@).unwrap().fragment is None,
{
    let mut u = url::Url::parse(url).ok()?;
    u.set_fragment(None);
    Some(u.to_string())
}

/// `Url::parse`, then `Url::set_password(None)`, then serialization. The
/// setter refuses only URLs that cannot carry a password at all.
///
/// Trusted: the result is named by [`password_cleared`]. Claimed from the
/// `url` source: as for [`clear_query`], with no password left and the
/// query, fragment and user name untouched.
#[verifier::external_body]
fn clear_password(url: &str) -> (r: Option<String>)
    ensures
        opt_text(r) == password_cleared(url@),
        edit_step(url@, opt_text(r)),
        r matches Some(t) ==> parsed_url(t@).unwrap().password is None,
{
    let mut u = url::Url::parse(url).ok()?;
    let _ = u.set_password(None);
    Some(u.to_string())
}

/// `Url::parse`, then `Url::set_username("")`, then serialization. The
/// setter refuses only URLs that cannot carry a user name at all.
///
/// Trusted: the result is named by [`username_cleared`]. Claimed from the
/// `url` source: as for [`clear_query`], with the user name empty and the
/// query, fragment and an absent password untouched.
#[verifier::external_body]
fn clear_username(url: &str) -> (r: Option<String>)
    ensures
        opt_text(r) == username_cleared(url@),
        edit_step(url@, opt_text(r)),
        r matches Some(t) ==> parsed_url(t@).unwrap().username.len() == 0,
{
    let mut u = url::Url::parse(url).ok()?;
    let _ = u.set_username("");
    Some(u.to_string())
}

/// A text, where there is one, by its view.
pub open spec fn opt_text(o: Option<String>) -> Option<Seq<char>> {
    match o {
        Some(s) => Some(s@),
        None => None,
    }
}

/// The marker logged in place of a URL that does not parse.
pub open spec fn unparseable_marker() -> Seq<char> {
    "<unparseable url>"@
}

/// How a URL is written into a log line: its query, fragment, password and
/// user name cleared in that order, or a fixed marker when it does not parse.
pub open spec fn loggable_text(url: Seq<char>) -> Seq<char> {
    match query_cleared(url) {
        None => unparseable_marker(),
        Some(a) => match fragment_cleared(a) {
            None => unparseable_marker(),
            Some(b) => match password_cleared(b) {
                None => unparseable_marker(),
                Some(c) => match username_cleared(c) {
                    None => unparseable_marker(),
                    Some(d) => d,
                },
            },
        },
    }
}

/// Render a URL for logging with its credential-bearing parts removed: a
/// URL that parses is shown with no query, fragment, user name or password
/// left; one that does not is shown as a fixed marker.
pub fn loggable(url: &str) -> (r: String)
    ensures
        r@ == loggable_text(url@),
        parsed_url(url@) is Some ==> (parsed_url(r@) is Some && credentials_hidden(
            parsed_url(r@).unwrap(),
        )),
        parsed_url(url@) is None ==> r@ == unparseable_marker(),
{
    let a = match clear_query(url) {
        Some(a) => a,
        None => return String::from_str("<unparseable url>"),
    };
    let b = match clear_fragment(a.as_str()) {
        Some(b) => b,
        None => return String::from_str("<unparseable url>"),
    };
    let c = match clear_password(b.as_str()) {
        Some(c) => c,
        None => return String::from_str("<unparseable url>"),
    };
    match clear_username(c.as_str()) {
        Some(d) => d,
        None => String::from_str("<unparseable url>"),
    }
}

/// The request methods a guest may use.
#[derive(Debug, Clone, Copy, PartialEq, Eq)]
pub enum HttpMethod {
    Get,
    Post,
    Put,
    Delete,
    Patch,
    Head,
}

/// The method an upper-cased method name stands for.
pub open spec fn method_named(upper: Seq<char>) -> Option<HttpMethod> {
    if upper == "GET"@ {
        Some(HttpMethod::Get)
    } else if upper == "POST"@ {
        Some(HttpMethod::Post)
    } else if upper == "PUT"@ {
        Some(HttpMethod::Put)
    } else if upper == "DELETE"@ {
        Some(HttpMethod::Delete)
    } else if upper == "PATCH"@ {
        Some(HttpMethod::Patch)
    } else if upper == "HEAD"@ {
        Some(HttpMethod::Head)
    } else {
        None
    }
}

/// The decision on a guest's fetch before it is sent: the URL must be on the
/// allow-list, a client must be configured, and the method must be one of
/// the supported ones (compared after upper-casing).
pub open spec fn fetch_request_result(
    m: crate::url_matcher::MatcherView,
    url: Seq<char>,
    has_client: bool,
    method: Seq<char>,
) -> Result<HttpMethod, Seq<char>> {
    if !matcher_allows(m, url) {
        Err("network not allowed for url: "@ + url)
    } else if !has_client {
        Err("http client not configured for this runtime"@)
    } else {
        match method_named(unicode_uppercase(method)) {
            Some(k) => Ok(k),
            None => Err("unsupported http method: "@ + unicode_uppercase(method)),
        }
    }
}

pub open spec fn method_result_view(r: Result<HttpMethod, String>) -> Result<HttpMethod, Seq<char>> {
    match r {
        Ok(k) => Ok(k),
        Err(m) => Err(m@),
    }
}

/// Decide whether a guest's fetch may be sent, and with which method.
pub fn fetch_request_gate(matcher: &UrlMatcher, url: &str, has_client: bool, method: &str) -> (r:
    Result<HttpMethod, String>)
    ensures
        method_result_view(r) == fetch_request_result(matcher@, url@, has_client, method@),
{
    if !matcher.is_allowed(url) {
        return Err(concat("network not allowed for url: ", url));
    }
    if !has_client {
        return Err(String::from_str("http client not configured for this runtime"));
    }
    let upper = to_uppercase(method);
    method_from_upper(upper.as_str())
}

/// The method an upper-cased method name stands for, or the error naming an
/// unsupported one.
pub fn method_from_upper(u: &str) -> (r: Result<HttpMethod, String>)
    ensures
        method_result_view(r) == match method_named(u@) {
            Some(k) => Ok(k),
            None => Err("unsupported http method: "@ + u@),
        },
{
    if str_eq(u, "GET") {
        Ok(HttpMethod::Get)
    } else if str_eq(u, "POST") {
        Ok(HttpMethod::Post)
    } else if str_eq(u, "PUT") {
        Ok(HttpMethod::Put)
    } else if str_eq(u, "DELETE") {
        Ok(HttpMethod::Delete)
    } else if str_eq(u, "PATCH") {
        Ok(HttpMethod::Patch)
    } else if str_eq(u, "HEAD") {
        Ok(HttpMethod::Head)
    } else {
        Err(concat("unsupported http method: ", u))
    }
}

/// The decision on where a fetch landed: a response that was redirected off
/// the allow-list is withheld.
pub open spec fn redirect_result(
    m: crate::url_matcher::MatcherView,
    requested: Seq<char>,
    final_url: Seq<char>,
) -> Result<(), Seq<char>> {
    if final_url != requested && !matcher_allows(m, final_url) {
        Err("network not allowed for redirect target: "@ + loggable_text(final_url))
    } else {
        Ok(())
    }
}

/// Re-check the URL a fetch actually landed on.
pub fn redirect_gate(matcher: &UrlMatcher, requested: &str, final_url: &str) -> (r: Result<
    (),
    String,
>)
    ensures
        unit_result_view(r) == redirect_result(matcher@, requested@, final_url@),
        r is Err && parsed_url(final_url@) is Some ==> (parsed_url(loggable_text(final_url@)) is Some
            && credentials_hidden(parsed_url(loggable_text(final_url@)).unwrap())),
{
    if !str_eq(final_url, requested) && !matcher.is_allowed(final_url) {
        let shown = loggable(final_url);
        return Err(concat("network not allowed for redirect target: ", shown.as_str()));
    }
    Ok(())
}

/// Refuse a response body longer than [`MAX_RESPONSE_BYTES`].
pub fn body_cap_gate(len: u64) -> (r: Result<(), String>)
    ensures
        len <= MAX_RESPONSE_BYTES ==> r is Ok,
        len > MAX_RESPONSE_BYTES ==> (r matches Err(m) && m@
            == "http response body exceeds the 33554432 byte cap"@),
{
    if len > MAX_RESPONSE_BYTES {
        Err(String::from_str("http response body exceeds the 33554432 byte cap"))
    } else {
        Ok(())
    }
}

/// A declaration that names no path segment (such as `""` or `secrets:`)
/// grants nothing at all.
pub proof fn law_unspecific_declaration_grants_nothing(d: Seq<char>, uri: Seq<char>)
    requires
        !declaration_names_a_path(d),
    ensures
        !declaration_grants(d, uri),
{
}

/// A declared prefix grants a longer URI only at a `/` boundary: `a/b` does
/// not grant `a/bc`.
pub proof fn law_grant_stops_at_path_boundary(d: Seq<char>, uri: Seq<char>)
    requires
        starts_with(uri, d),
        uri.len() > d.len(),
        uri[d.len() as int] != '/',
    ensures
        !declaration_grants(d, uri),
{
}

/// A completion only ever runs under a role the extension declared.
pub proof fn law_llm_role_is_declared(declared: Seq<Seq<char>>, hint: Option<Seq<char>>)
    ensures
        llm_role_result(declared, hint) matches Ok(role) ==> kind_declared(declared, role),
{
    if hint is None && declared.len() == 1 {
        let role = declared[0];
        assert(declared[0] == role);
    }
}

/// No cross-extension call is let through once the chain is at the maximum
/// depth, whatever kinds are declared.
pub proof fn law_depth_limit_is_absolute(extension_id: Seq<char>, kinds: Seq<Seq<char>>, kind: Seq<char>, depth: u32)
    requires
        depth >= MAX_BROKER_DEPTH,
    ensures
        broker_gate_result(extension_id, kinds, kind, depth) is Err,
{
}

/// With a role hint, a completion runs exactly when the hint is one of the
/// declared roles, and then under the hint itself; a hint that is not
/// declared is refused by name, even when only one role is declared.
pub proof fn law_llm_hint_must_be_declared(declared: Seq<Seq<char>>, h: Seq<char>, port_configured: bool)
    ensures
        llm_role_result(declared, Some(h)) is Ok <==> exists|i: int| 0 <= i < declared.len() && declared[i] == h,
        llm_role_result(declared, Some(h)) matches Ok(r) ==> r == h,
        !(exists|i: int| 0 <= i < declared.len() && declared[i] == h) ==> llm_role_result(declared, Some(h))
            == Err::<Seq<char>, Seq<char>>("llm role not permitted: "@ + h),
        port_configured ==> (completion_gate_result(declared, Some(h), port_configured) is Ok <==> exists|
            i: int,
        | 0 <= i < declared.len() && declared[i] == h),
        completion_gate_result(declared, Some(h), port_configured) matches Ok(r) ==> r == h,
{
}

/// Each of the six supported method names stands for its method.
pub proof fn law_each_supported_method_name_is_recognised()
    ensures
        method_named("GET"@) == Some(HttpMethod::Get),
        method_named("POST"@) == Some(HttpMethod::Post),
        method_named("PUT"@) == Some(HttpMethod::Put),
        method_named("DELETE"@) == Some(HttpMethod::Delete),
        method_named("PATCH"@) == Some(HttpMethod::Patch),
        method_named("HEAD"@) == Some(HttpMethod::Head),
{
    reveal_strlit("GET");
    reveal_strlit("POST");
    reveal_strlit("PUT");
    reveal_strlit("DELETE");
    reveal_strlit("PATCH");
    reveal_strlit("HEAD");
    let names = seq!["GET"@, "POST"@, "PUT"@, "DELETE"@, "PATCH"@, "HEAD"@];
    assert(names[0][0] != names[2][0]);
    assert(names[1][0] != names[5][0]);
    assert forall|i: int, j: int| 0 <= i < j < 6 implies names[i] != names[j] by {
        if names[i].len() == names[j].len() {
            assert(names[i][0] != names[j][0]);
        }
    }
}

/// An allowed fetch with a client configured is sent with the method its
/// upper-cased name stands for, for each of the six supported names.
pub proof fn law_allowed_fetch_uses_the_named_method(
    m: crate::url_matcher::MatcherView,
    url: Seq<char>,
    method: Seq<char>,
)
    requires
        matcher_allows(m, url),
    ensures
        unicode_uppercase(method) == "GET"@ ==> fetch_request_result(m, url, true, method) == Ok::<HttpMethod, Seq<char>>(HttpMethod::Get),
        unicode_uppercase(method) == "POST"@ ==> fetch_request_result(m, url, true, method) == Ok::<HttpMethod, Seq<char>>(HttpMethod::Post),
        unicode_uppercase(method) == "PUT"@ ==> fetch_request_result(m, url, true, method) == Ok::<HttpMethod, Seq<char>>(HttpMethod::Put),
        unicode_uppercase(method) == "DELETE"@ ==> fetch_request_result(m, url, true, method) == Ok::<HttpMethod, Seq<char>>(HttpMethod::Delete),
        unicode_uppercase(method) == "PATCH"@ ==> fetch_request_result(m, url, true, method) == Ok::<HttpMethod, Seq<char>>(HttpMethod::Patch),
        unicode_uppercase(method) == "HEAD"@ ==> fetch_request_result(m, url, true, method) == Ok::<HttpMethod, Seq<char>>(HttpMethod::Head),
{
    law_each_supported_method_name_is_recognised();
}

/// Without a hint, the sole declared role is used; with no declared role, or
/// several, the completion is refused.
pub proof fn law_llm_without_hint(declared: Seq<Seq<char>>)
    ensures
        declared.len() == 1 ==> llm_role_result(declared, None) == Ok::<Seq<char>, Seq<char>>(declared[0]),
        declared.len() != 1 ==> llm_role_result(declared, None) is Err,
{
}

/// Only the six supported names stand for a method.
pub proof fn law_only_supported_method_names_are_recognised(upper: Seq<char>)
    ensures
        method_named(upper) is Some ==> (upper == "GET"@ || upper == "POST"@ || upper == "PUT"@ || upper
            == "DELETE"@ || upper == "PATCH"@ || upper == "HEAD"@),
{
}

} // verus!
