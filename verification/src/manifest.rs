//! Whole-archive integrity ledger checks: the ledger's schema, and each
//! listed file against the sha256 the ledger records for it.
use vstd::prelude::*;
use crate::error::RuntimeError;
use crate::text::{concat, str_eq};

verus! {

/// The only ledger schema this runtime accepts.
pub open spec fn manifest_schema_v1() -> Seq<char> {
    "greentic.gtxpack.manifest/v1"@
}

/// The SHA-256 digest of `bytes`.
pub uninterp spec fn sha256_of(bytes: Seq<u8>) -> Seq<u8>;

/// `sha2::Sha256::digest`.
///
/// Trusted: the digest is named by [`sha256_of`] and is 32 bytes long (the
/// digest's output size); the hash function itself is not stated.
#[verifier::external_body]
fn sha256_digest(bytes: &[u8]) -> (r: Vec<u8>)
    ensures
        r@ == sha256_of(bytes@),
        r@.len() == 32,
{
    <sha2::Sha256 as sha2::Digest>::digest(bytes).to_vec()
}

/// The lower-case hex digit for `d < 16`.
pub open spec fn hex_digit(d: nat) -> char {
    if d < 10 {
        crate::text::digit_char(d)
    } else if d == 10 { 'a' } else if d == 11 { 'b' } else if d == 12 { 'c' }
    else if d == 13 { 'd' } else if d == 14 { 'e' } else { 'f' }
}

/// Lower-case hex of a byte string, two digits per byte, as `{:x}` prints a
/// digest.
pub open spec fn hex_lower(bytes: Seq<u8>) -> Seq<char>
    decreases bytes.len(),
{
    if bytes.len() == 0 {
        Seq::empty()
    } else {
        hex_lower(bytes.drop_last()) + seq![
            hex_digit((bytes.last() / 16) as nat),
            hex_digit((bytes.last() % 16) as nat),
        ]
    }
}

fn hex_str(d: u8) -> (r: &'static str)
    requires
        d < 16,
    ensures
        r@ == seq![hex_digit(d as nat)],
{
    proof {
        reveal_strlit("0"); reveal_strlit("1"); reveal_strlit("2"); reveal_strlit("3");
        reveal_strlit("4"); reveal_strlit("5"); reveal_strlit("6"); reveal_strlit("7");
        reveal_strlit("8"); reveal_strlit("9"); reveal_strlit("a"); reveal_strlit("b");
        reveal_strlit("c"); reveal_strlit("d"); reveal_strlit("e"); reveal_strlit("f");
    }
    if d == 0 { "0" } else if d == 1 { "1" } else if d == 2 { "2" } else if d == 3 { "3" }
    else if d == 4 { "4" } else if d == 5 { "5" } else if d == 6 { "6" } else if d == 7 { "7" }
    else if d == 8 { "8" } else if d == 9 { "9" } else if d == 10 { "a" } else if d == 11 { "b" }
    else if d == 12 { "c" } else if d == 13 { "d" } else if d == 14 { "e" } else { "f" }
}

/// Lower-case hex of `bytes`.
pub fn to_hex_lower(bytes: &[u8]) -> (r: String)
    ensures
        r@ == hex_lower(bytes@),
{
    let mut out = String::new();
    let n = bytes.len();
    let mut i: usize = 0;
    while i < n
        invariant
            n == bytes@.len(),
            i <= n,
            out@ == hex_lower(bytes@.subrange(0, i as int)),
        decreases n - i,
    {
        let b = bytes[i];
        out.append(hex_str(b / 16));
        out.append(hex_str(b % 16));
        assert(bytes@.subrange(0, i + 1).drop_last() =~= bytes@.subrange(0, i as int));
        i = i + 1;
    }
    assert(bytes@.subrange(0, n as int) =~= bytes@);
    out
}

/// The hex digest of a file's contents.
pub open spec fn content_hash(contents: Seq<u8>) -> Seq<char> {
    hex_lower(sha256_of(contents))
}

/// The verdict on one ledger entry: the file must exist and hash to the
/// recorded digest.
pub open spec fn entry_verdict(path: Seq<char>, expected: Seq<char>, contents: Option<Seq<u8>>) -> Result<(), Seq<char>> {
    match contents {
        None => Err("manifest lists missing file: "@ + path),
        Some(c) => if content_hash(c) != expected {
            Err("manifest sha256 mismatch for "@ + path + ": expected "@ + expected + " got "@
                + content_hash(c))
        } else {
            Ok(())
        },
    }
}

pub open spec fn unit_result_view(r: Result<(), String>) -> Result<(), Seq<char>> {
    match r {
        Ok(()) => Ok(()),
        Err(m) => Err(m@),
    }
}

pub open spec fn opt_bytes_view(o: Option<&[u8]>) -> Option<Seq<u8>> {
    match o {
        Some(b) => Some(b@),
        None => None,
    }
}

/// Check one ledger entry against the file found at its path (`None` when
/// there is no such file).
pub fn check_manifest_entry(path: &str, expected_sha256: &str, contents: Option<&[u8]>) -> (r:
    Result<(), String>)
    ensures
        unit_result_view(r) == entry_verdict(path@, expected_sha256@, opt_bytes_view(contents)),
{
    let bytes = match contents {
        Some(b) => b,
        None => return Err(concat("manifest lists missing file: ", path)),
    };
    let digest = sha256_digest(bytes);
    check_entry_digest(path, expected_sha256, digest.as_slice())
}

/// The verdict on an existing file whose contents hash to `digest`: its
/// lower-case hex must be the recorded digest.
pub fn check_entry_digest(path: &str, expected_sha256: &str, digest: &[u8]) -> (r: Result<(), String>)
    ensures
        unit_result_view(r) == if hex_lower(digest@) != expected_sha256@ {
            Err("manifest sha256 mismatch for "@ + path@ + ": expected "@ + expected_sha256@ + " got "@
                + hex_lower(digest@))
        } else {
            Ok::<(), Seq<char>>(())
        },
{
    let computed = to_hex_lower(digest);
    if !str_eq(computed.as_str(), expected_sha256) {
        let mut m = concat("manifest sha256 mismatch for ", path);
        m.append(": expected ");
        m.append(expected_sha256);
        m.append(" got ");
        m.append(computed.as_str());
        return Err(m);
    }
    Ok(())
}

/// A recorded digest, where there is one, by its view.
pub open spec fn opt_str_ref_view(o: Option<&str>) -> Option<Seq<char>> {
    match o {
        Some(s) => Some(s@),
        None => None,
    }
}

/// The verdict on the binding between the signed describe and the ledger:
/// the describe must record a digest, and it must be the lower-case hex
/// SHA-256 of the ledger's bytes exactly.
pub open spec fn binding_verdict(stored: Option<Seq<char>>, raw: Seq<u8>) -> Result<(), Seq<char>> {
    match stored {
        None => Err("signature verification failed: describe.manifestSha256 missing"@),
        Some(s) => if s != content_hash(raw) {
            Err("signature verification failed: manifestSha256 mismatch: stored="@ + s
                + ", computed="@ + content_hash(raw))
        } else {
            Ok(())
        },
    }
}

/// The verdict on the binding when the ledger's bytes hash to `digest`.
pub open spec fn binding_digest_verdict(stored: Option<Seq<char>>, digest: Seq<u8>) -> Result<(), Seq<char>> {
    match stored {
        None => Err("signature verification failed: describe.manifestSha256 missing"@),
        Some(s) => if s != hex_lower(digest) {
            Err("signature verification failed: manifestSha256 mismatch: stored="@ + s
                + ", computed="@ + hex_lower(digest))
        } else {
            Ok(())
        },
    }
}

/// Check that the describe's recorded ledger digest (`stored`, the
/// `manifestSha256` field) is the SHA-256 of the ledger's raw bytes, so the
/// signed describe commits to exactly this ledger.
pub fn check_manifest_binding(stored: Option<&str>, raw: &[u8]) -> (r: Result<(), String>)
    ensures
        unit_result_view(r) == binding_verdict(opt_str_ref_view(stored), raw@),
{
    let digest = sha256_digest(raw);
    check_binding_digest(stored, digest.as_slice())
}

/// The binding check for a ledger whose bytes hash to `digest`.
pub fn check_binding_digest(stored: Option<&str>, digest: &[u8]) -> (r: Result<(), String>)
    ensures
        unit_result_view(r) == binding_digest_verdict(opt_str_ref_view(stored), digest@),
{
    let expected = match stored {
        Some(s) => s,
        None => {
            return Err(String::from_str("signature verification failed: describe.manifestSha256 missing"));
        },
    };
    let computed = to_hex_lower(digest);
    if !str_eq(computed.as_str(), expected) {
        let mut m = concat("signature verification failed: manifestSha256 mismatch: stored=", expected);
        m.append(", computed=");
        m.append(computed.as_str());
        return Err(m);
    }
    Ok(())
}

/// Refuse a ledger whose schema is not the supported one.
pub fn check_manifest_schema(schema: &str) -> (r: Result<(), String>)
    ensures
        schema@ == manifest_schema_v1() ==> r is Ok,
        schema@ != manifest_schema_v1() ==> (r matches Err(m) && m@
            == "manifest schema unsupported: "@ + schema@),
{
    if str_eq(schema, "greentic.gtxpack.manifest/v1") {
        Ok(())
    } else {
        Err(concat("manifest schema unsupported: ", schema))
    }
}

/// A ledger entry is accepted only when the file exists and its digest is
/// exactly the recorded one.
pub proof fn law_entry_accepted_only_on_exact_digest(
    path: Seq<char>,
    expected: Seq<char>,
    contents: Option<Seq<u8>>,
)
    ensures
        entry_verdict(path, expected, contents) is Ok <==> (contents is Some && content_hash(
            contents.unwrap(),
        ) == expected),
{
}

/// The ledger is accepted as bound to the describe exactly when the describe
/// records a digest and that digest is the ledger's lower-case hex SHA-256;
/// an unbound describe is always refused.
pub proof fn law_binding_accepted_only_on_exact_digest(stored: Option<Seq<char>>, raw: Seq<u8>)
    ensures
        binding_verdict(stored, raw) is Ok <==> stored == Some(content_hash(raw)),
{
}

/// What `serde_json::from_slice` reads out of a ledger's bytes as a
/// `greentic_extension_sdk_contract::Manifest`: its schema and each entry's
/// path and recorded digest, in order; or the parser's message.
pub uninterp spec fn manifest_parsed(raw: Seq<u8>) -> Result<(Seq<char>, Seq<(Seq<char>, Seq<char>)>), Seq<char>>;

/// Path and digest pairs by their views.
pub open spec fn pairs_view(es: Seq<(String, String)>) -> Seq<(Seq<char>, Seq<char>)> {
    es.map_values(|e: (String, String)| (e.0@, e.1@))
}

/// A ledger parse by its view.
pub open spec fn ledger_parse_view(r: Result<(String, Vec<(String, String)>), String>) -> Result<(Seq<char>, Seq<(Seq<char>, Seq<char>)>), Seq<char>> {
    match r {
        Ok((schema, entries)) => Ok((schema@, pairs_view(entries@))),
        Err(m) => Err(m@),
    }
}

/// `serde_json::from_slice::<Manifest>`, keeping the schema and each entry's
/// path and digest.
///
/// Trusted: the outcome is named by [`manifest_parsed`], a function of the
/// bytes; the JSON grammar and the ledger's serde shape are not stated.
#[verifier::external_body]
fn parse_manifest(raw: &[u8]) -> (r: Result<(String, Vec<(String, String)>), String>)
    ensures
        ledger_parse_view(r) == manifest_parsed(raw@),
{
    serde_json::from_slice::<greentic_extension_sdk_contract::Manifest>(raw)
        .map(|m| (m.schema, m.entries.into_iter().map(|e| (e.path, e.sha256)).collect()))
        .map_err(|e| e.to_string())
}

/// Why a ledger is refused before its entries are looked at, in the order
/// the checks run, or the entries it lists: the ledger must exist, be the
/// one the signed describe commits to, parse, and speak the supported
/// schema. `ledger_name` is the ledger's file name inside the pack.
pub open spec fn ledger_head_verdict(
    ledger_name: Seq<char>,
    stored: Option<Seq<char>>,
    raw: Option<Seq<u8>>,
) -> Result<Seq<(Seq<char>, Seq<char>)>, Seq<char>> {
    match raw {
        None => Err(ledger_name + " absent — refusing to load an extension without a whole-archive integrity ledger (set GREENTIC_EXT_ALLOW_UNSIGNED with the dev-allow-unsigned build for local dev)"@),
        Some(b) => match binding_verdict(stored, b) {
            Err(m) => Err("manifest binding: "@ + m),
            Ok(_) => match manifest_parsed(b) {
                Err(p) => Err(ledger_name + " parse: "@ + p),
                Ok(parsed) => if parsed.0 != manifest_schema_v1() {
                    Err("manifest schema unsupported: "@ + parsed.0)
                } else {
                    Ok(parsed.1)
                },
            },
        },
    }
}

/// `r` refuses extension `id` with signature-invalid reason `reason`.
pub open spec fn refuses(r: RuntimeError, id: Seq<char>, reason: Seq<char>) -> bool {
    r matches RuntimeError::SignatureInvalid { extension_id: x, reason: y } && x@ == id && y@ == reason
}

fn refusal(extension_id: &str, reason: String) -> (r: RuntimeError)
    ensures
        refuses(r, extension_id@, reason@),
{
    RuntimeError::SignatureInvalid { extension_id: String::from_str(extension_id), reason }
}

/// The first half of checking an unpacked extension against its integrity
/// ledger, run in order and refusing on the first failure: the ledger
/// (`raw`, `None` when the pack has none) must exist, its digest must be the
/// one the describe records (`stored`), it must parse, and its schema must be
/// the supported one. On success the entries it lists come back, for
/// [`verify_manifest_entries`].
pub fn manifest_entries(extension_id: &str, ledger_name: &str, stored: Option<&str>, raw: Option<&[u8]>) -> (r: Result<
    Vec<(String, String)>,
    RuntimeError,
>)
    ensures
        match ledger_head_verdict(ledger_name@, opt_str_ref_view(stored), opt_bytes_view(raw)) {
            Ok(es) => r matches Ok(v) && pairs_view(v@) == es,
            Err(m) => r matches Err(e) && refuses(e, extension_id@, m),
        },
{
    let bytes = match raw {
        Some(b) => b,
        None => {
            let reason = concat(ledger_name, " absent — refusing to load an extension without a whole-archive integrity ledger (set GREENTIC_EXT_ALLOW_UNSIGNED with the dev-allow-unsigned build for local dev)");
            return Err(refusal(extension_id, reason));
        },
    };
    match check_manifest_binding(stored, bytes) {
        Ok(()) => {},
        Err(m) => {
            return Err(refusal(extension_id, concat("manifest binding: ", m.as_str())));
        },
    }
    let (schema, entries) = match parse_manifest(bytes) {
        Ok(p) => p,
        Err(p) => {
            let mut reason = concat(ledger_name, " parse: ");
            reason.append(p.as_str());
            return Err(refusal(extension_id, reason));
        },
    };
    match check_manifest_schema(schema.as_str()) {
        Ok(()) => Ok(entries),
        Err(m) => Err(refusal(extension_id, m)),
    }
}

/// An optional file's contents by their view.
pub open spec fn opt_vec_view(o: Option<Vec<u8>>) -> Option<Seq<u8>> {
    match o {
        Some(v) => Some(v@),
        None => None,
    }
}

/// The verdict on a ledger's entries, in order: the first entry whose file
/// is missing or hashes to another digest refuses the ledger.
pub open spec fn entries_verdict(entries: Seq<(Seq<char>, Seq<char>)>, contents: Seq<Option<Seq<u8>>>) -> Result<(), Seq<char>>
    decreases entries.len(),
{
    if entries.len() == 0 {
        Ok(())
    } else {
        match entries_verdict(entries.drop_last(), contents.drop_last()) {
            Err(m) => Err(m),
            Ok(_) => entry_verdict(entries.last().0, entries.last().1, contents.last()),
        }
    }
}

/// The second half of checking an unpacked extension against its ledger:
/// every listed entry, in order, must have a file (`contents[i]`, `None`
/// when the file is missing) that hashes to its recorded digest; the first
/// that does not refuses the extension.
pub fn verify_manifest_entries(extension_id: &str, entries: &[(String, String)], contents: &[Option<Vec<u8>>]) -> (r:
    Result<(), RuntimeError>)
    requires
        entries@.len() == contents@.len(),
    ensures
        match entries_verdict(pairs_view(entries@), contents@.map_values(|o: Option<Vec<u8>>| opt_vec_view(o))) {
            Ok(_) => r is Ok,
            Err(m) => r matches Err(e) && refuses(e, extension_id@, m),
        },
{
    let ghost es = pairs_view(entries@);
    let ghost cs = contents@.map_values(|o: Option<Vec<u8>>| opt_vec_view(o));
    let n = entries.len();
    let mut i: usize = 0;
    while i < n
        invariant
            n == entries@.len(),
            n == contents@.len(),
            es == pairs_view(entries@),
            cs == contents@.map_values(|o: Option<Vec<u8>>| opt_vec_view(o)),
            i <= n,
            entries_verdict(es.subrange(0, i as int), cs.subrange(0, i as int)) is Ok,
        decreases n - i,
    {
        proof {
            assert(es.subrange(0, i + 1).drop_last() =~= es.subrange(0, i as int));
            assert(cs.subrange(0, i + 1).drop_last() =~= cs.subrange(0, i as int));
        }
        let contents_i: Option<&[u8]> = match &contents[i] {
            Some(v) => Some(v.as_slice()),
            None => None,
        };
        assert(opt_bytes_view(contents_i) == cs[i as int]);
        match check_manifest_entry(entries[i].0.as_str(), entries[i].1.as_str(), contents_i) {
            Ok(()) => {},
            Err(m) => {
                proof {
                    assert(es.subrange(0, n as int).subrange(0, i + 1) =~= es.subrange(0, i + 1));
                    lemma_entries_verdict_keeps_first_failure(es, cs, i as int + 1);
                }
                return Err(refusal(extension_id, m));
            },
        }
        i = i + 1;
    }
    assert(es.subrange(0, n as int) =~= es);
    assert(cs.subrange(0, n as int) =~= cs);
    Ok(())
}

/// A refusal among the first `k` entries is the refusal of the whole ledger.
proof fn lemma_entries_verdict_keeps_first_failure(
    es: Seq<(Seq<char>, Seq<char>)>,
    cs: Seq<Option<Seq<u8>>>,
    k: int,
)
    requires
        0 <= k <= es.len(),
        es.len() == cs.len(),
        entries_verdict(es.subrange(0, k), cs.subrange(0, k)) is Err,
    ensures
        entries_verdict(es, cs) == entries_verdict(es.subrange(0, k), cs.subrange(0, k)),
    decreases es.len() - k,
{
    if k < es.len() {
        let k1 = k + 1;
        assert(es.subrange(0, k1).drop_last() =~= es.subrange(0, k));
        assert(cs.subrange(0, k1).drop_last() =~= cs.subrange(0, k));
        lemma_entries_verdict_keeps_first_failure(es, cs, k1);
    } else {
        assert(es.subrange(0, k) =~= es);
        assert(cs.subrange(0, k) =~= cs);
    }
}

/// A ledger's entries are accepted exactly when every entry's file exists
/// and hashes to its recorded digest.
pub proof fn law_entries_accepted_only_when_every_file_matches(
    es: Seq<(Seq<char>, Seq<char>)>,
    cs: Seq<Option<Seq<u8>>>,
)
    requires
        es.len() == cs.len(),
    ensures
        entries_verdict(es, cs) is Ok <==> forall|i: int|
            0 <= i < es.len() ==> #[trigger] entry_verdict(es[i].0, es[i].1, cs[i]) is Ok,
    decreases es.len(),
{
    if es.len() > 0 {
        let (ep, cp) = (es.drop_last(), cs.drop_last());
        law_entries_accepted_only_when_every_file_matches(ep, cp);
        assert forall|i: int| 0 <= i < ep.len() implies ep[i] == es[i] && cp[i] == cs[i] by {}
        let last = es.len() - 1;
        if entries_verdict(es, cs) is Ok {
            assert forall|i: int| 0 <= i < es.len() implies #[trigger] entry_verdict(es[i].0, es[i].1, cs[i]) is Ok by {
                if i < last {
                    assert(entry_verdict(ep[i].0, ep[i].1, cp[i]) is Ok);
                }
            }
        } else if forall|i: int| 0 <= i < es.len() ==> #[trigger] entry_verdict(es[i].0, es[i].1, cs[i]) is Ok {
            assert forall|i: int| 0 <= i < ep.len() implies #[trigger] entry_verdict(ep[i].0, ep[i].1, cp[i]) is Ok by {
                assert(entry_verdict(es[i].0, es[i].1, cs[i]) is Ok);
            }
            assert(entry_verdict(es[last].0, es[last].1, cs[last]) is Ok);
        }
    }
}

} // verus!
