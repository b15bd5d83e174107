//! Pack references and the store-server endpoints they resolve to.
use vstd::prelude::*;
use crate::text::{concat, first_index_of, has_char, str_find_char, str_trim_end_matches, trim_end_matches};

verus! {

/// Why a pack could not be fetched.
#[derive(Debug)]
pub enum RegistryError {
    /// The pack reference is malformed.
    BadRef(String),
    /// The HTTP transport failed; the text is the transport's message.
    Http(String),
    /// The store server answered with a non-success status code.
    Status(u16),
}

/// A parsed pack reference of the form `<full_name>@<version>`, e.g.
/// `greentic.dentist-template@1.2.0`.
#[derive(Debug, Clone, PartialEq, Eq)]
pub struct PackRef {
    /// Full dotted name like `greentic.dentist-template`.
    pub name: String,
    /// Version string like `1.2.0`.
    pub version: String,
}

/// What parsing `s` yields: the text before the first `@` as the name and
/// the rest as the version, or the reason it is refused.
pub open spec fn pack_ref_parse(s: Seq<char>) -> Result<(Seq<char>, Seq<char>), Seq<char>> {
    if !has_char(s, '@') {
        Err("missing @version"@)
    } else {
        let i = choose|i: int| first_index_of(s, '@', i);
        let name = s.subrange(0, i);
        let version = s.subrange(i + 1, s.len() as int);
        if name.len() == 0 || version.len() == 0 {
            Err("empty segment"@)
        } else {
            Ok((name, version))
        }
    }
}

pub open spec fn pack_ref_result_view(r: Result<PackRef, RegistryError>) -> Result<(Seq<char>, Seq<char>), Seq<char>> {
    match r {
        Ok(p) => Ok((p.name@, p.version@)),
        Err(RegistryError::BadRef(m)) => Err(m@),
        Err(_) => Err(Seq::empty()),
    }
}

impl PackRef {
    /// Parse a string of the form `<full_name>@<version>`; the split is at
    /// the first `@`, and both sides must be non-empty.
    pub fn parse(s: &str) -> (r: Result<Self, RegistryError>)
        ensures
            pack_ref_result_view(r) == pack_ref_parse(s@),
            r is Err ==> r matches Err(RegistryError::BadRef(_)),
    {
        let n = s.unicode_len();
        let at = match str_find_char(s, '@') {
            Some(i) => i,
            None => return Err(RegistryError::BadRef(String::from_str("missing @version"))),
        };
        proof {
            let i = choose|i: int| first_index_of(s@, '@', i);
            assert(i == at);
        }
        let name = s.substring_char(0, at);
        let version = s.substring_char(at + 1, n);
        if name.unicode_len() == 0 || version.unicode_len() == 0 {
            return Err(RegistryError::BadRef(String::from_str("empty segment")));
        }
        Ok(PackRef { name: String::from_str(name), version: String::from_str(version) })
    }
}

/// Where packs are fetched from: a greentic-store-server base URL.
#[derive(Debug, Clone)]
pub struct StoreServerClient {
    base_url: String,
}

impl StoreServerClient {
    /// A client for `base_url`, with any trailing `/` removed.
    pub fn new(base_url: String) -> (r: Self)
        ensures
            r.base_url_spec() == trim_end_matches(base_url@, "/"@),
    {
        proof {
            reveal_strlit("/");
        }
        let trimmed = str_trim_end_matches(base_url.as_str(), "/");
        StoreServerClient { base_url: String::from_str(trimmed) }
    }

    pub closed spec fn base_url_spec(&self) -> Seq<char> {
        self.base_url@
    }

    /// The base URL, without a trailing `/`.
    pub fn base_url(&self) -> (r: &str)
        ensures
            r@ == self.base_url_spec(),
    {
        self.base_url.as_str()
    }

    /// The full URL `<base>/api/v1/packs/<name>/<version><suffix>`.
    pub fn endpoint(&self, pack_ref: &PackRef, suffix: &str) -> (r: String)
        ensures
            r@ == self.base_url_spec() + "/api/v1/packs/"@ + pack_ref.name@ + "/"@
                + pack_ref.version@ + suffix@,
    {
        let mut out = concat(self.base_url.as_str(), "/api/v1/packs/");
        out.append(pack_ref.name.as_str());
        out.append("/");
        out.append(pack_ref.version.as_str());
        out.append(suffix);
        out
    }
}

/// A store-server answer is accepted exactly when its status is a success
/// (2xx); otherwise the status is reported.
pub fn check_status(status: u16) -> (r: Result<(), RegistryError>)
    ensures
        200 <= status <= 299 ==> r is Ok,
        !(200 <= status <= 299) ==> (r matches Err(RegistryError::Status(s)) && s == status),
{
    if 200 <= status && status <= 299 {
        Ok(())
    } else {
        Err(RegistryError::Status(status))
    }
}

} // verus!
