//! OAuth broker client: the records exchanged with the broker and the
//! validation of the broker's base URL.
use vstd::prelude::*;
use crate::net_permissions::{host_is_loopback, is_loopback_host};
use crate::text::str_eq;
use crate::url_parts::{opt_url_view, parse_url, parsed_url, UrlFacts, UrlParts};

verus! {

/// Configuration the host supplies so the runtime can reach the OAuth broker.
#[derive(Clone, Debug)]
pub struct OAuthBrokerConfig {
    pub http_base_url: String,
    pub env: String,
    pub tenant: String,
    pub team: Option<String>,
    pub shared_secret: Option<String>,
}

/// A request for a resource access token.
#[derive(Clone, Debug, PartialEq, Eq)]
pub struct ResourceTokenRequest {
    pub http_base_url: String,
    pub env: String,
    pub tenant: String,
    pub team: Option<String>,
    pub resource_id: String,
    pub scopes: Vec<String>,
}

/// The broker's answer: an already-fresh access token.
#[derive(Clone, Debug, PartialEq, Eq)]
pub struct ResourceTokenResponse {
    pub access_token: String,
    pub expires_at: u64,
}

/// Why the broker's base URL was refused.
#[derive(Clone, Copy, Debug, PartialEq, Eq)]
pub enum BrokerUrlError {
    /// The base URL does not parse.
    Unparseable,
    /// The base URL is neither `https` nor plain `http` to a loopback host.
    NotHttps,
    /// The base URL carries a query.
    HasQuery,
    /// `resource-token` cannot be resolved against the base URL.
    JoinFailed,
}

/// What `url::Url::join` yields for `relative` resolved against the parsed
/// `base`, serialized; `None` when `base` does not parse or the join fails.
pub uninterp spec fn joined_url(base: Seq<char>, relative: Seq<char>) -> Option<Seq<char>>;

/// Parse `base` with `url::Url::parse`, resolve `relative` against it with
/// `Url::join`, and serialize the result.
///
/// Trusted: the result is named by [`joined_url`]; URL resolution rules are
/// not stated.
#[verifier::external_body]
fn join_url(base: &str, relative: &str) -> (r: Option<String>)
    ensures
        match r {
            Some(s) => joined_url(base@, relative@) == Some(s@),
            None => joined_url(base@, relative@) is None,
        },
{
    match url::Url::parse(base) {
        Ok(b) => match b.join(relative) {
            Ok(u) => Some(u.to_string()),
            Err(_) => None,
        },
        Err(_) => None,
    }
}

/// A scheme and host the broker may be reached over: `https` to any host, or
/// plain `http` to a loopback host (`127.0.0.0/8`, `::1` or `localhost`), so
/// that a broker on the local machine can be reached without TLS.
pub open spec fn broker_transport_allowed(u: UrlFacts) -> bool {
    ||| u.scheme == "https"@
    ||| u.scheme == "http"@ && match u.host {
        Some(h) => is_loopback_host(h),
        None => false,
    }
}

/// The endpoint a resource-token request is posted to, or why the base URL
/// is refused: it must parse, be `https` (or plain `http` to a loopback
/// host), and carry no query.
pub open spec fn token_endpoint(base: Seq<char>) -> Result<Seq<char>, BrokerUrlError> {
    endpoint_from(parsed_url(base), joined_url(base, "resource-token"@))
}

/// The endpoint, or why the base URL is refused, given what the base URL
/// parsed into and what joining `resource-token` onto it gave.
pub open spec fn endpoint_from(parsed: Option<UrlFacts>, joined: Option<Seq<char>>) -> Result<Seq<char>, BrokerUrlError> {
    match parsed {
        None => Err(BrokerUrlError::Unparseable),
        Some(u) => if !broker_transport_allowed(u) {
            Err(BrokerUrlError::NotHttps)
        } else if u.query is Some {
            Err(BrokerUrlError::HasQuery)
        } else {
            match joined {
                Some(s) => Ok(s),
                None => Err(BrokerUrlError::JoinFailed),
            }
        },
    }
}

/// Validate the broker's base URL and resolve the `resource-token` endpoint
/// against it.
pub fn resource_token_url(http_base_url: &str) -> (r: Result<String, BrokerUrlError>)
    ensures
        match r {
            Ok(s) => token_endpoint(http_base_url@) == Ok::<Seq<char>, BrokerUrlError>(s@),
            Err(e) => token_endpoint(http_base_url@) == Err::<Seq<char>, BrokerUrlError>(e),
        },
{
    let parsed = parse_url(http_base_url);
    let joined = join_url(http_base_url, "resource-token");
    endpoint_for(&parsed, joined)
}

/// Decide the endpoint from the parts the base URL parsed into and the URL
/// that joining `resource-token` onto it gave: the base must have parsed, be
/// `https` or plain `http` to a loopback host, carry no query, and the join
/// must have succeeded.
pub fn endpoint_for(parsed: &Option<UrlParts>, joined: Option<String>) -> (r: Result<String, BrokerUrlError>)
    ensures
        match r {
            Ok(s) => endpoint_from(opt_url_view(*parsed), opt_string_view(joined)) == Ok::<Seq<char>, BrokerUrlError>(s@),
            Err(e) => endpoint_from(opt_url_view(*parsed), opt_string_view(joined)) == Err::<Seq<char>, BrokerUrlError>(e),
        },
{
    let base = match parsed {
        Some(u) => u,
        None => return Err(BrokerUrlError::Unparseable),
    };
    let transport_ok = if str_eq(base.scheme.as_str(), "https") {
        true
    } else if str_eq(base.scheme.as_str(), "http") {
        match &base.host {
            Some(h) => host_is_loopback(h),
            None => false,
        }
    } else {
        false
    };
    if !transport_ok {
        return Err(BrokerUrlError::NotHttps);
    }
    if base.query.is_some() {
        return Err(BrokerUrlError::HasQuery);
    }
    match joined {
        Some(s) => Ok(s),
        None => Err(BrokerUrlError::JoinFailed),
    }
}

/// A text, where there is one, by its view.
pub open spec fn opt_string_view(o: Option<String>) -> Option<Seq<char>> {
    match o {
        Some(s) => Some(s@),
        None => None,
    }
}

/// A token is only ever requested from a broker without a query, over
/// `https`, or over plain `http` only when the broker's host is loopback: a
/// public host is never reached without TLS.
pub proof fn law_token_endpoint_is_https_or_loopback(base: Seq<char>)
    requires
        token_endpoint(base) is Ok,
    ensures
        parsed_url(base) is Some,
        parsed_url(base).unwrap().query is None,
        parsed_url(base).unwrap().scheme == "https"@ || {
            &&& parsed_url(base).unwrap().scheme == "http"@
            &&& parsed_url(base).unwrap().host is Some
            &&& is_loopback_host(parsed_url(base).unwrap().host.unwrap())
        },
{
}

} // verus!
