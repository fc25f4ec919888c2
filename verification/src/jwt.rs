//! Signing and checking JSON Web Tokens with `jsonwebtoken` (HS256).
//!
//! The claims travel as their JSON text: the library writes and reads that
//! text itself, and `jsonwebtoken` signs it (as a `serde_json` raw value),
//! checks a token's signature and hands back the text of its claims, and
//! checks the claims (expiry, not-before, issuer, audience, required
//! claims), each failure told apart by its kind.

use vstd::prelude::*;

use crate::json::{is_object_layout, render, without_outer_whitespace, Segment};
use crate::json_object::{member, parse_object};
use crate::text::{chars_vec, str_equal, string_from_chars};

verus! {

/// The kinds of `jsonwebtoken` failure that the service tells apart; any
/// other failure carries the crate's message.
#[derive(Debug, Clone)]
pub enum JwtError {
    ExpiredSignature,
    InvalidToken,
    InvalidIssuer,
    InvalidAudience,
    ImmatureSignature,
    MissingRequiredClaim(String),
    Other(String),
}

/// The start of the message of a missing required claim.
pub open spec fn missing_claim_prefix() -> Seq<char> {
    "Missing required claim: "@
}

/// Whether a message is none of those of the kinds told apart.
pub open spec fn is_other_message(m: Seq<char>) -> bool {
    &&& m != "ExpiredSignature"@
    &&& m != "InvalidToken"@
    &&& m != "InvalidIssuer"@
    &&& m != "InvalidAudience"@
    &&& m != "ImmatureSignature"@
    &&& !missing_claim_prefix().is_prefix_of(m)
}

/// The message of a `jsonwebtoken` failure (its `Display`): the kind's name
/// for the kinds told apart, the crate's message otherwise.
pub open spec fn jwt_error_text(e: JwtError) -> Seq<char> {
    match e {
        JwtError::ExpiredSignature => "ExpiredSignature"@,
        JwtError::InvalidToken => "InvalidToken"@,
        JwtError::InvalidIssuer => "InvalidIssuer"@,
        JwtError::InvalidAudience => "InvalidAudience"@,
        JwtError::ImmatureSignature => "ImmatureSignature"@,
        JwtError::MissingRequiredClaim(c) => missing_claim_prefix() + c@,
        JwtError::Other(m) => m@,
    }
}

impl JwtError {
    /// The message of the failure (see `jwt_error_text`).
    pub fn message(&self) -> (r: String)
        ensures
            r@ == jwt_error_text(*self),
    {
        match self {
            JwtError::ExpiredSignature => String::from_str("ExpiredSignature"),
            JwtError::InvalidToken => String::from_str("InvalidToken"),
            JwtError::InvalidIssuer => String::from_str("InvalidIssuer"),
            JwtError::InvalidAudience => String::from_str("InvalidAudience"),
            JwtError::ImmatureSignature => String::from_str("ImmatureSignature"),
            JwtError::MissingRequiredClaim(c) => String::from_str("Missing required claim: ").concat(c.as_str()),
            JwtError::Other(m) => String::from_str(m.as_str()),
        }
    }
}

/// What `jsonwebtoken::encode` writes for a claims text signed with a
/// secret: the HS256 token of the default header and that text.
pub uninterp spec fn spec_jwt_encode(claims_json: Seq<char>, secret: Seq<char>) -> Seq<char>;

/// `jsonwebtoken::encode(&Header::default(), &claims, &EncodingKey::from_secret(secret))`
/// with the claims given as JSON text (`serde_json::value::RawValue`, which
/// serialises as the text itself). Its failures (the text is not JSON, or
/// the crate reports an error) are given as their messages. Per the crates'
/// sources, it fails only where the text is not JSON (`RawValue::from_string`
/// checks that; `encode` with the default HS256 header and a secret key
/// always signs), so a compact object of plain keys and string or integer
/// values is always signed. The token's payload part is the base64url of that text, and
/// reading it back as a raw value (what `jwt_signed_claims` hands back) gives the
/// text again when it has no outer whitespace (`RawValue::from_string`
/// trims that); the default header names HS256 and the signature is made
/// with the same secret, so the token's signature checks under it.
#[verifier::external_body]
pub(crate) fn jwt_encode(claims_json: &str, secret: &str) -> (r: Result<String, String>)
    ensures
        r matches Ok(t) ==> t@ == spec_jwt_encode(claims_json@, secret@),
        r matches Ok(t) ==> (without_outer_whitespace(claims_json@) ==> spec_jwt_claims_text(t@) == claims_json@),
        r matches Ok(t) ==> spec_jwt_hs256_valid(t@, secret@),
        (exists|gs: Seq<Segment>| #[trigger] render(gs) == claims_json@ && is_object_layout(gs)) ==> r is Ok,
{
    let raw = serde_json::value::RawValue::from_string(claims_json.to_string()).map_err(|e| e.to_string())?;
    let key = jsonwebtoken::EncodingKey::from_secret(secret.as_bytes());
    jsonwebtoken::encode(&jsonwebtoken::Header::default(), &raw, &key).map_err(|e| e.to_string())
}

/// The JSON text of the claims of a token: the base64url-decoded payload
/// part, as `serde_json` reads it into a raw value.
pub uninterp spec fn spec_jwt_claims_text(token: Seq<char>) -> Seq<char>;

/// Whether a token's signature checks under a secret, as `jsonwebtoken`'s
/// decoding checks it: the header names HS256 and the signature part is the
/// HMAC-SHA256, under the secret, of the header and payload parts.
pub uninterp spec fn spec_jwt_hs256_valid(token: Seq<char>, secret: Seq<char>) -> bool;

/// The string value of a claim of a token, read from its claims text as a
/// JSON object (see `json_object`): `None` where the text is not read as an
/// object, or the claim is missing, given twice or not a string.
pub open spec fn claim_string(token: Seq<char>, key: Seq<char>) -> Option<Seq<char>> {
    match parse_object(spec_jwt_claims_text(token)) {
        Some(ms) => match member(ms, key) {
            Some(Segment::Str(s)) => Some(s),
            _ => None,
        },
        None => None,
    }
}

/// The key `iss`.
pub open spec fn key_iss() -> Seq<char> {
    seq!['i', 's', 's']
}

/// The key `aud`.
pub open spec fn key_aud() -> Seq<char> {
    seq!['a', 'u', 'd']
}

/// `jsonwebtoken::decode` of a token with `DecodingKey::from_secret(secret)`
/// and a `Validation::default()` (HS256) on which no claim is checked
/// (`validate_exp` and `validate_aud` off, no required claim, no issuer):
/// the signature is checked and the claims are read as a raw JSON value,
/// their text; a failure is given by its message (`Display`). Per the
/// crate's source a success holds the token's claims text and the signature
/// checked under the secret (`verify_signature` runs first), and a failure
/// is one of reading or checking the token, never one of the claim checks
/// (expiry, not-before, issuer, audience, required claims), which are off.
#[verifier::external_body]
fn jwt_signed_claims(token: &str, secret: &str) -> (r: Result<String, String>)
    ensures
        r matches Ok(p) ==> p@ == spec_jwt_claims_text(token@) && spec_jwt_hs256_valid(token@, secret@),
        r matches Err(m) ==> is_other_message(m@) || m@ == "InvalidToken"@,
{
    let mut validation = jsonwebtoken::Validation::default();
    validation.validate_exp = false;
    validation.validate_aud = false;
    validation.required_spec_claims.clear();
    let key = jsonwebtoken::DecodingKey::from_secret(secret.as_bytes());
    jsonwebtoken::decode::<Box<serde_json::value::RawValue>>(token, &key, &validation)
        .map(|data| data.claims.get().to_string())
        .map_err(|e| e.to_string())
}

/// `jsonwebtoken::decode` of a token with `DecodingKey::from_secret(secret)`
/// and a `Validation::default()` (HS256, expiry checked with the default
/// 60 seconds of leeway) on which the accepted issuer and audiences are set
/// (`set_issuer`, `set_audience`), the not-before claim is checked when
/// `validate_nbf` is set, and the given claims are required
/// (`set_required_spec_claims`); a failure is given by its message
/// (`Display`). Whether it succeeds depends on the clock (expiry and
/// not-before). Per the crate's `validate`, an issuer failure comes only
/// where the claims' `iss` is not the issuer, an audience failure only
/// where their `aud` is not among the audiences, a missing-claim failure
/// names a required claim; and a success means the `iss` and `aud` that
/// the claims hold as strings are the issuer and one of the audiences, and
/// the signature checked under the secret. The claims are the same JSON
/// text that `claim_string` reads, so a string it reads is the one that
/// `serde_json` reads for the check.
#[verifier::external_body]
fn jwt_validate(
    token: &str,
    secret: &str,
    issuer: &str,
    audiences: &[&str],
    required: &[&str],
    validate_nbf: bool,
) -> (r: Result<(), String>)
    ensures
        r matches Err(m) ==> (m@ == "InvalidIssuer"@ ==> claim_string(token@, key_iss()) != Some(issuer@)),
        r matches Err(m) ==> (m@ == "InvalidAudience"@ ==> forall|i: int|
            0 <= i < audiences@.len() ==> claim_string(token@, key_aud()) != Some(#[trigger] audiences@[i]@)),
        r matches Err(m) ==> (missing_claim_prefix().is_prefix_of(m@) ==> exists|i: int|
            0 <= i < required@.len() && m@ == missing_claim_prefix() + (#[trigger] required@[i])@),
        r is Ok ==> spec_jwt_hs256_valid(token@, secret@),
        r is Ok ==> (claim_string(token@, key_iss()) matches Some(s) ==> s == issuer@),
        r is Ok ==> (claim_string(token@, key_aud()) matches Some(a) ==> exists|i: int|
            0 <= i < audiences@.len() && a == (#[trigger] audiences@[i])@),
{
    let mut validation = jsonwebtoken::Validation::default();
    validation.set_issuer(&[issuer]);
    validation.set_audience(audiences);
    validation.validate_nbf = validate_nbf;
    validation.set_required_spec_claims(required);
    let key = jsonwebtoken::DecodingKey::from_secret(secret.as_bytes());
    jsonwebtoken::decode::<Box<serde_json::value::RawValue>>(token, &key, &validation)
        .map(|_| ())
        .map_err(|e| e.to_string())
}

/// Whether a text starts with `Missing required claim: `.
fn has_missing_claim_prefix(m: &Vec<char>) -> (r: bool)
    ensures
        r == missing_claim_prefix().is_prefix_of(m@),
{
    let p = chars_vec("Missing required claim: ");
    if m.len() < p.len() {
        return false;
    }
    let mut i: usize = 0;
    while i < p.len()
        invariant
            p@ == missing_claim_prefix(),
            p@.len() <= m@.len(),
            i <= p@.len(),
            forall|j: int| 0 <= j < i ==> p@[j] == m@[j],
        decreases p@.len() - i,
    {
        if p[i] != m[i] {
            assert(!missing_claim_prefix().is_prefix_of(m@)) by {
                if missing_claim_prefix().is_prefix_of(m@) {
                    assert(m@.subrange(0, p@.len() as int) == p@);
                    assert(m@.subrange(0, p@.len() as int)[i as int] == m@[i as int]);
                }
            }
            return false;
        }
        i = i + 1;
    }
    assert(m@.subrange(0, p@.len() as int) =~= p@);
    true
}

/// The kind of a `jsonwebtoken` failure given by its message: the kinds
/// told apart are named by their message (the kind's name, or the missing
/// claim after `Missing required claim: `); any other message is `Other`.
/// The message of the kind is the message given.
pub fn error_of_message(m: String) -> (r: JwtError)
    ensures
        jwt_error_text(r) == m@,
        (m@ == "ExpiredSignature"@) == (r is ExpiredSignature),
        (m@ == "InvalidToken"@) == (r is InvalidToken),
        (m@ == "InvalidIssuer"@) == (r is InvalidIssuer),
        (m@ == "InvalidAudience"@) == (r is InvalidAudience),
        (m@ == "ImmatureSignature"@) == (r is ImmatureSignature),
        missing_claim_prefix().is_prefix_of(m@) == (r is MissingRequiredClaim),
        r is Other ==> is_other_message(m@),
{
    proof {
        reveal_strlit("ExpiredSignature");
        reveal_strlit("InvalidToken");
        reveal_strlit("InvalidIssuer");
        reveal_strlit("InvalidAudience");
        reveal_strlit("ImmatureSignature");
        reveal_strlit("Missing required claim: ");
    }
    let v = chars_vec(m.as_str());
    if str_equal(m.as_str(), "ExpiredSignature") {
        JwtError::ExpiredSignature
    } else if str_equal(m.as_str(), "InvalidToken") {
        JwtError::InvalidToken
    } else if str_equal(m.as_str(), "InvalidIssuer") {
        JwtError::InvalidIssuer
    } else if str_equal(m.as_str(), "InvalidAudience") {
        JwtError::InvalidAudience
    } else if str_equal(m.as_str(), "ImmatureSignature") {
        JwtError::ImmatureSignature
    } else if has_missing_claim_prefix(&v) {
        let name = string_from_chars(vstd::slice::slice_subrange(v.as_slice(), 24, v.len()));
        assert(m@ =~= missing_claim_prefix() + name@);
        JwtError::MissingRequiredClaim(name)
    } else {
        JwtError::Other(m)
    }
}

pub(crate) proof fn lemma_prefix_cancel(p: Seq<char>, a: Seq<char>, b: Seq<char>)
    requires
        p + a == p + b,
    ensures
        a == b,
{
    assert(a =~= (p + a).skip(p.len() as int));
    assert(b =~= (p + b).skip(p.len() as int));
}

/// Checks a token's signature with the secret and reads the text of its
/// claims, with no claim checked; a failure is told apart by kind (see
/// `error_of_message`) and is never one of the claim checks.
pub(crate) fn signed_claims_text(token: &str, secret: &str) -> (r: Result<String, JwtError>)
    ensures
        r matches Ok(p) ==> p@ == spec_jwt_claims_text(token@) && spec_jwt_hs256_valid(token@, secret@),
        r matches Err(e) ==> (e is InvalidToken || (e matches JwtError::Other(m) && is_other_message(m@))),
{
    match jwt_signed_claims(token, secret) {
        Ok(p) => Ok(p),
        Err(m) => Err(error_of_message(m)),
    }
}

/// Checks the claims of a token: its signature with the secret, expiry,
/// not-before when `validate_nbf` is set, the issuer, the audiences and the
/// required claims (see `jwt_validate`); a failure is told apart by kind,
/// with the cause that `jsonwebtoken` gives it.
pub(crate) fn validate_token(
    token: &str,
    secret: &str,
    issuer: &str,
    audiences: &[&str],
    required: &[&str],
    validate_nbf: bool,
) -> (r: Result<(), JwtError>)
    ensures
        r matches Err(JwtError::InvalidIssuer) ==> claim_string(token@, key_iss()) != Some(issuer@),
        r matches Err(JwtError::InvalidAudience) ==> forall|i: int|
            0 <= i < audiences@.len() ==> claim_string(token@, key_aud()) != Some(#[trigger] audiences@[i]@),
        r matches Err(JwtError::MissingRequiredClaim(c)) ==> exists|i: int|
            0 <= i < required@.len() && c@ == (#[trigger] required@[i])@,
        r matches Err(JwtError::Other(m)) ==> is_other_message(m@),
        r is Ok ==> spec_jwt_hs256_valid(token@, secret@),
        r is Ok ==> (claim_string(token@, key_iss()) matches Some(s) ==> s == issuer@),
        r is Ok ==> (claim_string(token@, key_aud()) matches Some(a) ==> exists|i: int|
            0 <= i < audiences@.len() && a == (#[trigger] audiences@[i])@),
{
    match jwt_validate(token, secret, issuer, audiences, required, validate_nbf) {
        Ok(()) => Ok(()),
        Err(m) => {
            let e = error_of_message(m);
            proof {
                if e is MissingRequiredClaim {
                    let c = e->MissingRequiredClaim_0;
                    let i = choose|i: int| 0 <= i < required@.len() && m@ == missing_claim_prefix() + (#[trigger] required@[i])@;
                    lemma_prefix_cancel(missing_claim_prefix(), c@, required@[i]@);
                }
            }
            Err(e)
        },
    }
}

} // verus!
