//! The signature check every registration and hot reload goes through, as a
//! sequence of steps: the describe must be intact, the integrity ledger must
//! verify, and only then is the signing key pinned for the extension's id
//! (trust on first use). The reads and the trust-store write are the
//! caller's; which step comes next, and on what, is decided here.
use vstd::prelude::*;
use crate::error::RuntimeError;
use crate::manifest::refuses;

verus! {

/// What reading a describe gave: its extension id, the public key of its
/// signature and the ledger digest it records; or why it was refused, with
/// the id where the text parsed.
pub type DescribeCheck = Result<(String, Option<String>, Option<String>), (Option<String>, String)>;

/// What `serde_json::from_str::<DescribeJson>` followed by
/// `greentic_extension_sdk_contract::verify_describe_self_consistent` gives
/// for the describe text `raw`: the id, public key and recorded ledger
/// digest of a describe whose signature verifies; the parser's message (and
/// no id); or the id and the verifier's message.
pub uninterp spec fn describe_checked(raw: Seq<char>) -> Result<
    (Seq<char>, Option<Seq<char>>, Option<Seq<char>>),
    (Option<Seq<char>>, Seq<char>),
>;

pub open spec fn opt_view(o: Option<String>) -> Option<Seq<char>> {
    match o {
        Some(s) => Some(s@),
        None => None,
    }
}

/// A describe check by its view.
pub open spec fn describe_check_view(c: DescribeCheck) -> Result<
    (Seq<char>, Option<Seq<char>>, Option<Seq<char>>),
    (Option<Seq<char>>, Seq<char>),
> {
    match c {
        Ok((id, key, sha)) => Ok((id@, opt_view(key), opt_view(sha))),
        Err((id, m)) => Err((opt_view(id), m@)),
    }
}

/// Parse the describe text and verify that its inline signature is
/// consistent with it (integrity, not yet authenticity).
///
/// Trusted: the outcome is named by [`describe_checked`], a function of the
/// text. Claimed from the contract crate's source: a describe that passes
/// `verify_describe_self_consistent` has a signature, so its key is present.
#[verifier::external_body]
fn check_describe(raw: &str) -> (r: DescribeCheck)
    ensures
        describe_check_view(r) == describe_checked(raw@),
        r matches Ok(c) ==> c.1 is Some,
{
    let d: greentic_extension_sdk_contract::DescribeJson =
        serde_json::from_str(raw).map_err(|e| (None, e.to_string()))?;
    let id = d.metadata.id.clone();
    match greentic_extension_sdk_contract::verify_describe_self_consistent(&d) {
        Ok(()) => Ok((id, d.signature.map(|s| s.public_key), d.manifest_sha256)),
        Err(e) => Err((Some(id), e.to_string())),
    }
}

/// Read the describe text for the signature check: parse it and check that its
/// signature is consistent with it.
pub fn describe_check(raw: &str) -> (r: DescribeCheck)
    ensures
        describe_check_view(r) == describe_checked(raw@),
        r matches Ok(c) ==> c.1 is Some,
{
    check_describe(raw)
}

/// What the signature check does next.
#[derive(Debug)]
pub enum SignatureAction {
    /// Refuse the extension with this error.
    Refuse(RuntimeError),
    /// Verify the integrity ledger against the digest the describe records.
    CheckLedger { extension_id: String, stored_sha: Option<String> },
    /// Pin (or check the pin of) this key for this extension id.
    Pin { extension_id: String, public_key: String },
}

/// The reason an unsigned describe is refused with.
pub open spec fn unsigned_reason() -> Seq<char> {
    "unsigned describe cannot be anchored"@
}

/// Decide the signature check's next step from the describe check and, once it has
/// run, the ledger check (`None` before). A describe that does not parse or
/// whose signature does not verify is refused; an unsigned one is refused;
/// otherwise the ledger is checked first, a failing ledger refuses the
/// extension, and only a ledger that passed leads to pinning the key.
pub fn signature_step(checked: &DescribeCheck, ledger: Option<Result<(), RuntimeError>>) -> (r: SignatureAction)
    ensures
        signature_step_allows(*checked, ledger, r),
{
    let (id, key, sha) = match checked {
        Ok(c) => c,
        Err((None, m)) => {
            return SignatureAction::Refuse(RuntimeError::Json(m.clone()));
        },
        Err((Some(id), m)) => {
            return SignatureAction::Refuse(
                RuntimeError::SignatureInvalid { extension_id: id.clone(), reason: m.clone() },
            );
        },
    };
    let key = match key {
        Some(k) => k,
        None => {
            return SignatureAction::Refuse(
                RuntimeError::SignatureInvalid {
                    extension_id: id.clone(),
                    reason: String::from_str("unsigned describe cannot be anchored"),
                },
            );
        },
    };
    match ledger {
        None => SignatureAction::CheckLedger {
            extension_id: id.clone(),
            stored_sha: match sha {
                Some(s) => Some(s.clone()),
                None => None,
            },
        },
        Some(Err(e)) => SignatureAction::Refuse(e),
        Some(Ok(())) => SignatureAction::Pin { extension_id: id.clone(), public_key: key.clone() },
    }
}

/// The signature check's answer once the trust store has pinned or checked the key: a
/// pin that fails refuses the extension with the store's message.
pub fn pin_outcome(extension_id: &str, pin: Result<(), String>) -> (r: Result<(), RuntimeError>)
    ensures
        match pin {
            Ok(_) => r is Ok,
            Err(m) => r matches Err(e) && refuses(e, extension_id@, m@),
        },
{
    match pin {
        Ok(()) => Ok(()),
        Err(m) => Err(RuntimeError::SignatureInvalid { extension_id: String::from_str(extension_id), reason: m }),
    }
}

/// The key is never pinned before the ledger has passed: whatever the
/// describe check gave, asking for a pin needs a ledger that verified.
pub proof fn law_no_pin_before_the_ledger_passes(
    checked: DescribeCheck,
    ledger: Option<Result<(), RuntimeError>>,
    r: SignatureAction,
)
    requires
        r matches SignatureAction::Pin { .. },
        signature_step_allows(checked, ledger, r),
    ensures
        ledger matches Some(Ok(_)),
        checked matches Ok(c) && c.1 is Some,
{
}

/// `r` is what [`signature_step`] answers for these inputs.
pub open spec fn signature_step_allows(
    checked: DescribeCheck,
    ledger: Option<Result<(), RuntimeError>>,
    r: SignatureAction,
) -> bool {
    &&& (r matches SignatureAction::Pin { .. } ==> ledger matches Some(Ok(_)))
    &&& match describe_check_view(checked) {
        Err((None, m)) => r matches SignatureAction::Refuse(RuntimeError::Json(x)) && x@ == m,
        Err((Some(id), m)) => r matches SignatureAction::Refuse(e) && refuses(e, id, m),
        Ok((id, None, _)) => r matches SignatureAction::Refuse(e) && refuses(e, id, unsigned_reason()),
        Ok((id, Some(key), sha)) => match ledger {
            None => r matches SignatureAction::CheckLedger { extension_id: x, stored_sha: s } && x@ == id
                && opt_view(s) == sha,
            Some(Err(e)) => r == SignatureAction::Refuse(e),
            Some(Ok(_)) => r matches SignatureAction::Pin { extension_id: x, public_key: k } && x@
                == id && k@ == key,
        },
    }
}

} // verus!
