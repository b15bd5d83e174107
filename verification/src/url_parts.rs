//! The parts of a parsed URL that the allow-list and redaction logic read.
//!
//! Parsing itself is the `url` crate's WHATWG parser; what it yields for a
//! given input is named by [`parsed_url`], and everything built on top of it
//! is verified against that name.
use url::{Host, Url};
use vstd::prelude::*;

verus! {

/// The host of a parsed URL, in the typed form `url::Url::host` reports it.
#[derive(Debug, Clone, PartialEq, Eq)]
pub enum UrlHost {
    Domain(String),
    /// An IPv4 address as its big-endian `u32` value.
    Ipv4(u32),
    /// An IPv6 address as its big-endian `u128` value.
    Ipv6(u128),
}

/// The scheme, host, path, query, fragment and user info of a parsed URL.
#[derive(Debug, Clone)]
pub struct UrlParts {
    pub scheme: String,
    pub host_str: Option<String>,
    pub host: Option<UrlHost>,
    pub path: String,
    pub query: Option<String>,
    pub fragment: Option<String>,
    /// The user name, empty when there is none.
    pub username: String,
    pub password: Option<String>,
}

/// Mathematical value of a [`UrlHost`].
pub ghost enum HostFacts {
    Domain(Seq<char>),
    Ipv4(u32),
    Ipv6(u128),
}

/// Mathematical value of a [`UrlParts`].
pub ghost struct UrlFacts {
    pub scheme: Seq<char>,
    pub host_str: Option<Seq<char>>,
    pub host: Option<HostFacts>,
    pub path: Seq<char>,
    pub query: Option<Seq<char>>,
    pub fragment: Option<Seq<char>>,
    pub username: Seq<char>,
    pub password: Option<Seq<char>>,
}

impl View for UrlHost {
    type V = HostFacts;

    open spec fn view(&self) -> HostFacts {
        match self {
            UrlHost::Domain(d) => HostFacts::Domain(d@),
            UrlHost::Ipv4(a) => HostFacts::Ipv4(*a),
            UrlHost::Ipv6(a) => HostFacts::Ipv6(*a),
        }
    }
}

pub open spec fn opt_str_view(o: Option<String>) -> Option<Seq<char>> {
    match o {
        Some(s) => Some(s@),
        None => None,
    }
}

pub open spec fn opt_host_view(o: Option<UrlHost>) -> Option<HostFacts> {
    match o {
        Some(h) => Some(h@),
        None => None,
    }
}

impl View for UrlParts {
    type V = UrlFacts;

    open spec fn view(&self) -> UrlFacts {
        UrlFacts {
            scheme: self.scheme@,
            host_str: opt_str_view(self.host_str),
            host: opt_host_view(self.host),
            path: self.path@,
            query: opt_str_view(self.query),
            fragment: opt_str_view(self.fragment),
            username: self.username@,
            password: opt_str_view(self.password),
        }
    }
}

pub open spec fn opt_url_view(o: Option<UrlParts>) -> Option<UrlFacts> {
    match o {
        Some(u) => Some(u@),
        None => None,
    }
}

/// What the WHATWG URL parser of the `url` crate yields for `input`:
/// `None` when the input does not parse.
pub uninterp spec fn parsed_url(input: Seq<char>) -> Option<UrlFacts>;

/// `std::net::Ipv4Addr::is_loopback`: the block `127.0.0.0/8`.
pub open spec fn ipv4_is_loopback(addr: u32) -> bool {
    addr / 16777216 == 127
}

/// `std::net::Ipv6Addr::is_loopback`: exactly `::1`.
pub open spec fn ipv6_is_loopback(addr: u128) -> bool {
    addr == 1
}

/// Parse `input` with `url::Url::parse` and read back its scheme, host,
/// path, query, fragment, user name and password.
///
/// Trusted: `url::Url::parse` and the accessors `scheme`, `host_str`, `host`,
/// `path`, `query`, `fragment`, `username` and `password`. The contract
/// claims only that the result is a function of the input (named
/// [`parsed_url`]); nothing is stated about the WHATWG parsing rules
/// themselves.
#[verifier::external_body]
pub(crate) fn parse_url(input: &str) -> (r: Option<UrlParts>)
    ensures
        opt_url_view(r) == parsed_url(input@),
{
    let u = Url::parse(input).ok()?;
    let host = u.host().map(|h| match h {
        Host::Domain(d) => UrlHost::Domain(d.into()),
        Host::Ipv4(a) => UrlHost::Ipv4(a.into()),
        Host::Ipv6(a) => UrlHost::Ipv6(a.into()),
    });
    let o = |s: Option<&str>| s.map(String::from);
    Some(UrlParts { scheme: u.scheme().into(), host_str: o(u.host_str()), host,
        path: u.path().into(), query: o(u.query()), fragment: o(u.fragment()),
        username: u.username().into(), password: o(u.password()) })
}

} // verus!
