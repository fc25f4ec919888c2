//! Token claims issued by the service under its own issuer name: the
//! subject and the identifier as text, the times as unsigned whole seconds
//! and the token kind (`Access` or `Refresh`); the lifetime follows from the
//! kind.

use vstd::prelude::*;

use crate::clock::utc_now;
use crate::domain::row_id::{uuid_now_v7, uuid_version};
use crate::domain::tokens::token_type::random_index;
use crate::error::AuthenticationError;
use crate::json::{
    render_fields, Field, Segment, pow10, MAX_DIGITS, render, segments_of, ints_in_range, lemma_render_braced,
    without_outer_whitespace, is_key_piece, is_object_layout, lemma_short_key_piece,
};
use crate::json_object::{
    distinct_names, find_member, ints_bounded, lemma_layout_members_index, lemma_member_of_names,
    lemma_object_roundtrip, layout_members, member, members_view, parse_object, read_object, seg_key,
};
use crate::jwt::{claim_string, is_other_message, key_aud, key_iss, missing_claim_prefix, signed_claims_text, validate_token, jwt_encode, jwt_error_text, spec_jwt_claims_text, spec_jwt_encode, spec_jwt_hs256_valid, JwtError};
use crate::text::{chars_vec, str_equal, string_from_chars};
use crate::uuid_text::{hyphenated, hyphenated_chars};

verus! {

/// The kind of a token.
#[derive(Debug, Clone, Copy, PartialEq, Eq, Structural)]
pub enum TokenType {
    Access,
    Refresh,
}

/// The name a token kind is displayed as (its variant name).
pub open spec fn token_type_text(t: TokenType) -> Seq<char> {
    match t {
        TokenType::Access => "Access"@,
        TokenType::Refresh => "Refresh"@,
    }
}

impl TokenType {
    /// The default kind: `Access`.
    pub fn default() -> (r: TokenType)
        ensures
            r == TokenType::Access,
    {
        TokenType::Access
    }

    /// The name of the kind (its `Display` text).
    pub fn to_string(&self) -> (r: String)
        ensures
            r@ == token_type_text(*self),
    {
        match self {
            TokenType::Access => String::from_str("Access"),
            TokenType::Refresh => String::from_str("Refresh"),
        }
    }

    /// The kind a draw gives: `Access` for 0, `Refresh` otherwise.
    pub fn from_index(i: usize) -> (r: TokenType)
        ensures
            r == (if i == 0 { TokenType::Access } else { TokenType::Refresh }),
    {
        match i {
            0 => TokenType::Access,
            _ => TokenType::Refresh,
        }
    }

    /// A token kind picked at random: the kind of a draw in `0..2` (see
    /// `from_index`).
    pub fn random() -> (r: TokenType) {
        TokenType::from_index(random_index(2))
    }
}

/// The claims of a token.
#[derive(Debug, Clone, PartialEq, Eq)]
pub struct TokenClaim {
    /// Issuer.
    pub iss: String,
    /// Subject: the user's id as hyphenated UUID text.
    pub sub: String,
    /// Expiration (seconds since the Unix epoch).
    pub exp: u64,
    /// Not before (seconds since the Unix epoch).
    pub nbf: u64,
    /// Issued at (seconds since the Unix epoch).
    pub iat: u64,
    /// Unique token identifier, as hyphenated UUID text.
    pub jti: String,
    /// Token kind, by name.
    pub jty: String,
}

/// The claims of a token, as a mathematical value.
pub struct IssuedClaimValue {
    pub iss: Seq<char>,
    pub sub: Seq<char>,
    pub exp: int,
    pub nbf: int,
    pub iat: int,
    pub jti: Seq<char>,
    pub jty: Seq<char>,
}

impl View for TokenClaim {
    type V = IssuedClaimValue;

    open spec fn view(&self) -> IssuedClaimValue {
        IssuedClaimValue {
            iss: self.iss@,
            sub: self.sub@,
            exp: self.exp as int,
            nbf: self.nbf as int,
            iat: self.iat as int,
            jti: self.jti@,
            jty: self.jty@,
        }
    }
}

/// The key pieces of the claims layout, in order.
pub open spec fn issued_claim_keys() -> Seq<Seq<char>> {
    seq![
        "{\"iss\":"@,
        ",\"sub\":"@,
        ",\"exp\":"@,
        ",\"nbf\":"@,
        ",\"iat\":"@,
        ",\"jti\":"@,
        ",\"jty\":"@,
        "}"@,
    ]
}

/// The segments of the JSON text of claims: the fields in declaration
/// order, as `serde_json` writes them.
pub open spec fn issued_claim_segments(c: IssuedClaimValue) -> Seq<Segment> {
    let k = issued_claim_keys();
    seq![
        Segment::Lit(k[0]),
        Segment::Str(c.iss),
        Segment::Lit(k[1]),
        Segment::Str(c.sub),
        Segment::Lit(k[2]),
        Segment::Int(c.exp),
        Segment::Lit(k[3]),
        Segment::Int(c.nbf),
        Segment::Lit(k[4]),
        Segment::Int(c.iat),
        Segment::Lit(k[5]),
        Segment::Str(c.jti),
        Segment::Lit(k[6]),
        Segment::Str(c.jty),
        Segment::Lit(k[7]),
    ]
}

/// The JSON text of claims.
pub open spec fn issued_claim_text(c: IssuedClaimValue) -> Seq<char> {
    render(issued_claim_segments(c))
}

/// Whether an integer fits a `u64`.
pub open spec fn fits_u64(v: int) -> bool {
    0 <= v <= u64::MAX
}

/// The keys of the claims, in declaration order.
pub open spec fn issued_claim_names() -> Seq<Seq<char>> {
    seq![
        seq!['i', 's', 's'],
        seq!['s', 'u', 'b'],
        seq!['e', 'x', 'p'],
        seq!['n', 'b', 'f'],
        seq!['i', 'a', 't'],
        seq!['j', 't', 'i'],
        seq!['j', 't', 'y'],
    ]
}

/// The claims that the members of a JSON object hold: each field read from
/// the member with its key (other members are skipped), the times as
/// integers that fit a `u64`.
pub open spec fn issued_claim_from_members(ms: Seq<(Seq<char>, Segment)>) -> Option<IssuedClaimValue> {
    let n = issued_claim_names();
    match (
        member(ms, n[0]),
        member(ms, n[1]),
        member(ms, n[2]),
        member(ms, n[3]),
        member(ms, n[4]),
        member(ms, n[5]),
        member(ms, n[6]),
    ) {
        (
            Some(Segment::Str(iss)),
            Some(Segment::Str(sub)),
            Some(Segment::Int(exp)),
            Some(Segment::Int(nbf)),
            Some(Segment::Int(iat)),
            Some(Segment::Str(jti)),
            Some(Segment::Str(jty)),
        ) => if fits_u64(exp) && fits_u64(nbf) && fits_u64(iat) {
            Some(IssuedClaimValue { iss, sub, exp, nbf, iat, jti, jty })
        } else {
            None
        },
        _ => None,
    }
}

/// What reading a claims text gives: the claims of the JSON object it
/// holds (see `issued_claim_from_members`), or `None`.
pub open spec fn issued_claim_from_text(t: Seq<char>) -> Option<IssuedClaimValue> {
    match parse_object(t) {
        Some(ms) => issued_claim_from_members(ms),
        None => None,
    }
}

/// The key pieces of the claims layout, character by character.
proof fn lemma_issued_claim_keys_chars()
    ensures
        issued_claim_keys()[0] == seq!['{', '"', 'i', 's', 's', '"', ':'],
        issued_claim_keys()[1] == seq![',', '"', 's', 'u', 'b', '"', ':'],
        issued_claim_keys()[2] == seq![',', '"', 'e', 'x', 'p', '"', ':'],
        issued_claim_keys()[3] == seq![',', '"', 'n', 'b', 'f', '"', ':'],
        issued_claim_keys()[4] == seq![',', '"', 'i', 'a', 't', '"', ':'],
        issued_claim_keys()[5] == seq![',', '"', 'j', 't', 'i', '"', ':'],
        issued_claim_keys()[6] == seq![',', '"', 'j', 't', 'y', '"', ':'],
        issued_claim_keys()[7] == seq!['}'],
{
    reveal_strlit("{\"iss\":");
    reveal_strlit(",\"sub\":");
    reveal_strlit(",\"exp\":");
    reveal_strlit(",\"nbf\":");
    reveal_strlit(",\"iat\":");
    reveal_strlit(",\"jti\":");
    reveal_strlit(",\"jty\":");
    reveal_strlit("}");
    let k = issued_claim_keys();
    assert(k[0] =~= seq!['{', '"', 'i', 's', 's', '"', ':']);
    assert(k[1] =~= seq![',', '"', 's', 'u', 'b', '"', ':']);
    assert(k[2] =~= seq![',', '"', 'e', 'x', 'p', '"', ':']);
    assert(k[3] =~= seq![',', '"', 'n', 'b', 'f', '"', ':']);
    assert(k[4] =~= seq![',', '"', 'i', 'a', 't', '"', ':']);
    assert(k[5] =~= seq![',', '"', 'j', 't', 'i', '"', ':']);
    assert(k[6] =~= seq![',', '"', 'j', 't', 'y', '"', ':']);
    assert(k[7] =~= seq!['}']);
}

proof fn lemma_issued_claim_names_distinct()
    ensures
        distinct_names(issued_claim_names()),
{
    let n = issued_claim_names();
    assert forall|a: int, b: int| 0 <= a < n.len() && 0 <= b < n.len() && a != b implies n[a] != n[b] by {
        if n[a] == n[b] {
            assert(n[a][0] == n[b][0] && n[a][1] == n[b][1] && n[a][2] == n[b][2]);
            assert(a == 0 || a == 1 || a == 2 || a == 3 || a == 4 || a == 5 || a == 6);
            assert(b == 0 || b == 1 || b == 2 || b == 3 || b == 4 || b == 5 || b == 6);
        }
    }
}

/// The segments of the JSON text of claims lay out a compact JSON object.
pub proof fn lemma_issued_claim_segments_object(c: IssuedClaimValue)
    ensures
        is_object_layout(issued_claim_segments(c)),
{
    let k = issued_claim_keys();
    let gs = issued_claim_segments(c);
    reveal_strlit("{\"iss\":");
    reveal_strlit(",\"sub\":");
    reveal_strlit(",\"exp\":");
    reveal_strlit(",\"nbf\":");
    reveal_strlit(",\"iat\":");
    reveal_strlit(",\"jti\":");
    reveal_strlit(",\"jty\":");
    reveal_strlit("}");
    assert(k[0] =~= seq!['{', '"', 'i', 's', 's', '"', ':']);
    lemma_short_key_piece(k[0], '{', 'i', 's', 's');
    assert(k[1] =~= seq![',', '"', 's', 'u', 'b', '"', ':']);
    lemma_short_key_piece(k[1], ',', 's', 'u', 'b');
    assert(k[2] =~= seq![',', '"', 'e', 'x', 'p', '"', ':']);
    lemma_short_key_piece(k[2], ',', 'e', 'x', 'p');
    assert(k[3] =~= seq![',', '"', 'n', 'b', 'f', '"', ':']);
    lemma_short_key_piece(k[3], ',', 'n', 'b', 'f');
    assert(k[4] =~= seq![',', '"', 'i', 'a', 't', '"', ':']);
    lemma_short_key_piece(k[4], ',', 'i', 'a', 't');
    assert(k[5] =~= seq![',', '"', 'j', 't', 'i', '"', ':']);
    lemma_short_key_piece(k[5], ',', 'j', 't', 'i');
    assert(k[6] =~= seq![',', '"', 'j', 't', 'y', '"', ':']);
    lemma_short_key_piece(k[6], ',', 'j', 't', 'y');
    assert(k[7] =~= seq!['}']);
    assert forall|i: int| 0 <= i < gs.len() - 1 && i % 2 == 0 implies
        ((#[trigger] gs[i]) matches Segment::Lit(l) && is_key_piece(l, if i == 0 { '{' } else { ',' })) by {
        assert(i == 0 || i == 2 || i == 4 || i == 6 || i == 8 || i == 10 || i == 12);
    }
    assert forall|i: int| 0 <= i < gs.len() - 1 && i % 2 == 1 implies !((#[trigger] gs[i]) is Lit) by {
        assert(i == 1 || i == 3 || i == 5 || i == 7 || i == 9 || i == 11 || i == 13);
    }
}

/// The JSON text of claims starts with `{` and ends with `}`.
pub proof fn lemma_issued_claim_text_braced(c: IssuedClaimValue)
    ensures
        without_outer_whitespace(issued_claim_text(c)),
{
    reveal_strlit("{\"iss\":");
    reveal_strlit("}");
    let gs = issued_claim_segments(c);
    assert(gs.last() == Segment::Lit(issued_claim_keys()[7]));
    assert(issued_claim_keys()[7] =~= seq!['}']);
    lemma_render_braced(gs);
}

proof fn lemma_issued_claim_ints_bounded(c: IssuedClaimValue)
    requires
        fits_u64(c.exp),
        fits_u64(c.nbf),
        fits_u64(c.iat),
    ensures
        ints_bounded(issued_claim_segments(c)),
{
    let gs = issued_claim_segments(c);
    assert(pow10(MAX_DIGITS as nat) > 0xffff_ffff_ffff_ffff) by {
        reveal_with_fuel(pow10, 31);
    }
    assert forall|i: int| 0 <= i < gs.len() implies match #[trigger] gs[i] {
        Segment::Int(x) => -pow10(MAX_DIGITS as nat) < x < pow10(MAX_DIGITS as nat),
        _ => true,
    } by {
        assert(0 <= i < 15);
    }
}

/// The members read from the JSON text of claims: each key in declaration
/// order with its field's value.
#[verifier::spinoff_prover]
#[verifier::rlimit(60)]
proof fn lemma_issued_claim_members(c: IssuedClaimValue)
    requires
        fits_u64(c.exp),
        fits_u64(c.nbf),
        fits_u64(c.iat),
    ensures
        ({
            let ms = layout_members(issued_claim_segments(c));
            let n = issued_claim_names();
            &&& parse_object(issued_claim_text(c)) == Some(ms)
            &&& ms.len() == 7
            &&& forall|a: int| 0 <= a < ms.len() ==> (#[trigger] ms[a]).0 == n[a]
            &&& ms[0].1 == Segment::Str(c.iss)
            &&& ms[1].1 == Segment::Str(c.sub)
            &&& ms[2].1 == Segment::Int(c.exp)
            &&& ms[3].1 == Segment::Int(c.nbf)
            &&& ms[4].1 == Segment::Int(c.iat)
            &&& ms[5].1 == Segment::Str(c.jti)
            &&& ms[6].1 == Segment::Str(c.jty)
        }),
{
    let gs = issued_claim_segments(c);
    lemma_issued_claim_segments_object(c);
    lemma_issued_claim_ints_bounded(c);
    lemma_object_roundtrip(gs);
    let ms = layout_members(gs);
    lemma_layout_members_index(gs);
    lemma_issued_claim_keys_chars();
    let n = issued_claim_names();
    assert(seg_key(gs[0]) =~= n[0]);
    assert(seg_key(gs[2]) =~= n[1]);
    assert(seg_key(gs[4]) =~= n[2]);
    assert(seg_key(gs[6]) =~= n[3]);
    assert(seg_key(gs[8]) =~= n[4]);
    assert(seg_key(gs[10]) =~= n[5]);
    assert(seg_key(gs[12]) =~= n[6]);
    assert forall|a: int| 0 <= a < ms.len() implies (#[trigger] ms[a]).0 == n[a] by {
        assert(ms[a] == (seg_key(gs[2 * a]), gs[2 * a + 1]));
        assert(a == 0 || a == 1 || a == 2 || a == 3 || a == 4 || a == 5 || a == 6);
    }
    assert(ms[0] == (seg_key(gs[0]), gs[1]));
    assert(ms[1] == (seg_key(gs[2]), gs[3]));
    assert(ms[2] == (seg_key(gs[4]), gs[5]));
    assert(ms[3] == (seg_key(gs[6]), gs[7]));
    assert(ms[4] == (seg_key(gs[8]), gs[9]));
    assert(ms[5] == (seg_key(gs[10]), gs[11]));
    assert(ms[6] == (seg_key(gs[12]), gs[13]));
}

/// Reading the JSON text of claims gives the claims back.
pub proof fn lemma_issued_claim_text_roundtrip(c: IssuedClaimValue)
    requires
        fits_u64(c.exp),
        fits_u64(c.nbf),
        fits_u64(c.iat),
    ensures
        issued_claim_from_text(issued_claim_text(c)) == Some(c),
{
    lemma_issued_claim_members(c);
    let ms = layout_members(issued_claim_segments(c));
    let n = issued_claim_names();
    lemma_issued_claim_names_distinct();
    lemma_member_of_names(ms, n, 0);
    lemma_member_of_names(ms, n, 1);
    lemma_member_of_names(ms, n, 2);
    lemma_member_of_names(ms, n, 3);
    lemma_member_of_names(ms, n, 4);
    lemma_member_of_names(ms, n, 5);
    lemma_member_of_names(ms, n, 6);
}

/// The key pieces of the layout, as text.
fn issued_claim_key_chars() -> (r: Vec<Vec<char>>)
    ensures
        r@.len() == 8,
        forall|i: int| 0 <= i < 8 ==> (#[trigger] r@[i])@ == issued_claim_keys()[i],
{
    let mut r: Vec<Vec<char>> = Vec::new();
    r.push(chars_vec("{\"iss\":"));
    r.push(chars_vec(",\"sub\":"));
    r.push(chars_vec(",\"exp\":"));
    r.push(chars_vec(",\"nbf\":"));
    r.push(chars_vec(",\"iat\":"));
    r.push(chars_vec(",\"jti\":"));
    r.push(chars_vec(",\"jty\":"));
    r.push(chars_vec("}"));
    r
}

/// The issuer the service writes in, and requires of, these claims.
pub open spec fn token_issuer() -> Seq<char> {
    "Personal Ledger Backend"@
}

/// The issuer the service writes in, and requires of, these claims.
pub const TOKEN_ISSUER: &'static str = "Personal Ledger Backend";

/// The lifetime of a refresh token, in seconds (two hours).
pub const REFRESH_TOKEN_DURATION: u64 = 7200;

/// The lifetime of a token of a kind, in seconds. Only refresh tokens have
/// one in this design: no access token lifetime is defined for it.
pub open spec fn lifetime_of(t: TokenType) -> Option<int> {
    match t {
        TokenType::Access => None,
        TokenType::Refresh => Some(REFRESH_TOKEN_DURATION as int),
    }
}

/// The claims made at a time for a subject: the time as whole seconds and
/// nanoseconds since the Unix epoch, and a token identifier (UUID bits).
/// `None` where the kind has no lifetime, the clock is before the epoch, or
/// the expiry does not fit the system clock's `i64` seconds.
pub open spec fn issued_claim_at(
    user_id: Seq<char>,
    token_type: TokenType,
    now_secs: int,
    now_nanos: int,
    jti: u128,
) -> Option<IssuedClaimValue> {
    match lifetime_of(token_type) {
        None => None,
        Some(duration) => {
            let exp = now_secs + duration + now_nanos / 1_000_000_000;
            if now_secs < 0 || exp > i64::MAX {
                None
            } else {
                Some(IssuedClaimValue {
                    iss: token_issuer(),
                    sub: user_id,
                    exp,
                    nbf: now_secs,
                    iat: now_secs,
                    jti: hyphenated(jti),
                    jty: token_type_text(token_type),
                })
            }
        },
    }
}

/// The message of a claims text that is not the text of any claims (what
/// the JSON reading of the claims reports).
pub open spec fn issued_claims_layout_message() -> Seq<char> {
    "JSON error: the claims do not have the token claim layout"@
}

/// What checking a token gives for each outcome of `jsonwebtoken`'s check:
/// the claims read from the claims text when they name the service's
/// issuer, or a `JsonWebToken` error with the failure's message.
pub open spec fn issued_claim_from_outcome_holds(
    outcome: Result<String, JwtError>,
    r: Result<TokenClaim, AuthenticationError>,
) -> bool {
    match outcome {
        Ok(p) => match issued_claim_from_text(p@) {
            Some(c) => if c.iss == token_issuer() {
                r matches Ok(x) && x@ == c
            } else {
                r matches Err(AuthenticationError::JsonWebToken(m)) && m@ == jwt_error_text(JwtError::InvalidIssuer)
            },
            None => r matches Err(AuthenticationError::JsonWebToken(m)) && m@ == issued_claims_layout_message(),
        },
        Err(e) => r matches Err(AuthenticationError::JsonWebToken(m)) && m@ == jwt_error_text(e),
    }
}

/// What the messages of checking a token tell, for the outcomes that the
/// checks give: an issuer message only where the claims' `iss` is not the
/// issuer, a missing-claim message only for a required claim.
proof fn lemma_issued_parse_messages(
    token: Seq<char>,
    issuer: Seq<char>,
    outcome: Result<String, JwtError>,
    r: Result<TokenClaim, AuthenticationError>,
)
    requires
        issued_claim_from_outcome_holds(outcome, r),
        issuer == token_issuer(),
        outcome matches Ok(p) ==> (p@ == spec_jwt_claims_text(token)),
        outcome matches Err(JwtError::InvalidIssuer) ==> claim_string(token, key_iss()) != Some(issuer),
        outcome matches Err(JwtError::MissingRequiredClaim(c)) ==> (c@ == "iss"@ || c@ == "exp"@ || c@ == "nbf"@),
        outcome matches Err(JwtError::Other(m)) ==> is_other_message(m@),
    ensures
        r matches Err(AuthenticationError::JsonWebToken(m)) ==> (m@ == "InvalidIssuer"@ ==> claim_string(
            token,
            key_iss(),
        ) != Some(issuer)),
        r matches Err(AuthenticationError::JsonWebToken(m)) ==> (forall|n: Seq<char>|
            m@ == missing_claim_prefix() + n ==> (n == "iss"@ || n == "exp"@ || n == "nbf"@)),
{
    reveal_strlit("InvalidIssuer");
    reveal_strlit("Missing required claim: ");
    reveal_strlit("JSON error: the claims do not have the token claim layout");
    reveal_strlit("ExpiredSignature");
    reveal_strlit("InvalidToken");
    reveal_strlit("ImmatureSignature");
    reveal_strlit("InvalidAudience");
    if let Err(AuthenticationError::JsonWebToken(m)) = r {
        match outcome {
            Ok(p) => {
                match issued_claim_from_text(p@) {
                    Some(c) => {
                        lemma_issued_claim_iss_read(p@, c);
                        if c.iss == issuer {
                            assert(m@[0] == 'J');
                        }
                        assert forall|n: Seq<char>| m@ == missing_claim_prefix() + n implies (n == "iss"@ || n == "exp"@ || n == "nbf"@) by {
                            assert(m@[0] == (missing_claim_prefix() + n)[0]);
                        }
                    },
                    None => {
                        assert(m@[0] == 'J');
                        assert forall|n: Seq<char>| m@ == missing_claim_prefix() + n implies (n == "iss"@ || n == "exp"@ || n == "nbf"@) by {
                            assert(m@[0] == (missing_claim_prefix() + n)[0]);
                        }
                    },
                }
            },
            Err(e) => {
                match e {
                    JwtError::MissingRequiredClaim(c) => {
                        assert forall|n: Seq<char>| m@ == missing_claim_prefix() + n implies (n == "iss"@ || n == "exp"@ || n == "nbf"@) by {
                            crate::jwt::lemma_prefix_cancel(missing_claim_prefix(), n, c@);
                        }
                        assert(m@[0] == 'M');
                    },
                    JwtError::Other(msg) => {
                        assert forall|n: Seq<char>| m@ == missing_claim_prefix() + n implies (n == "iss"@ || n == "exp"@ || n == "nbf"@) by {
                            assert(msg@.subrange(0, 24) =~= missing_claim_prefix());
                        }
                    },
                    JwtError::InvalidAudience => {
                        assert(m@[7] == 'A');
                        assert forall|n: Seq<char>| m@ == missing_claim_prefix() + n implies (n == "iss"@ || n == "exp"@ || n == "nbf"@) by {
                            assert(m@[0] == (missing_claim_prefix() + n)[0]);
                        }
                    },
                    JwtError::InvalidToken => {
                        assert(m@[7] == 'T');
                        assert forall|n: Seq<char>| m@ == missing_claim_prefix() + n implies (n == "iss"@ || n == "exp"@ || n == "nbf"@) by {
                            assert(m@[0] == (missing_claim_prefix() + n)[0]);
                        }
                    },
                    JwtError::ImmatureSignature => {
                        assert(m@[1] == 'm');
                        assert forall|n: Seq<char>| m@ == missing_claim_prefix() + n implies (n == "iss"@ || n == "exp"@ || n == "nbf"@) by {
                            assert(m@[0] == (missing_claim_prefix() + n)[0]);
                        }
                    },
                    JwtError::ExpiredSignature => {
                        assert(m@[0] == 'E');
                        assert forall|n: Seq<char>| m@ == missing_claim_prefix() + n implies (n == "iss"@ || n == "exp"@ || n == "nbf"@) by {
                            assert(m@[0] == (missing_claim_prefix() + n)[0]);
                        }
                    },
                    JwtError::InvalidIssuer => {
                        
                        assert forall|n: Seq<char>| m@ == missing_claim_prefix() + n implies (n == "iss"@ || n == "exp"@ || n == "nbf"@) by {
                            assert(m@[0] == (missing_claim_prefix() + n)[0]);
                        }
                    },
                }
            },
        }
    }
}

/// Claims read from a claims text hold the `iss` that the text holds as a
/// string.
proof fn lemma_issued_claim_iss_read(t: Seq<char>, c: IssuedClaimValue)
    requires
        issued_claim_from_text(t) == Some(c),
    ensures
        match parse_object(t) {
            Some(ms) => member(ms, key_iss()) == Some(Segment::Str(c.iss)),
            None => false,
        },
{
    assert(issued_claim_names()[0] =~= key_iss());
}

/// The audiences a token is checked against: none is set, so a token that
/// names an audience is refused.
pub fn accepted_audiences() -> (r: Vec<&'static str>)
    ensures
        r@.len() == 0,
{
    Vec::new()
}

/// The claims a token must hold: `iss`, `exp` and `nbf`.
pub fn required_claims() -> (r: Vec<&'static str>)
    ensures
        r@.len() == 3,
        r@[0]@ == "iss"@,
        r@[1]@ == "exp"@,
        r@[2]@ == "nbf"@,
{
    let mut r: Vec<&'static str> = Vec::new();
    r.push("iss");
    r.push("exp");
    r.push("nbf");
    r
}

impl TokenClaim {
    /// Claims with empty text and zero times.
    pub fn default() -> (r: TokenClaim)
        ensures
            r.iss@.len() == 0 && r.sub@.len() == 0 && r.jti@.len() == 0,
            r.jty@.len() == 0,
            r.exp == 0 && r.nbf == 0 && r.iat == 0,
    {
        TokenClaim {
            iss: String::new(),
            sub: String::new(),
            exp: 0,
            nbf: 0,
            iat: 0,
            jti: String::new(),
            jty: String::new(),
        }
    }

    /// The JSON text of the claims, as `serde_json` writes them: the fields
    /// in declaration order.
    pub fn to_json(&self) -> (r: String)
        ensures
            r@ == issued_claim_text(self@),
    {
        let k = issued_claim_key_chars();
        let mut fs: Vec<Field> = Vec::new();
        fs.push(Field::Lit(k[0].clone()));
        fs.push(Field::Str(chars_vec(self.iss.as_str())));
        fs.push(Field::Lit(k[1].clone()));
        fs.push(Field::Str(chars_vec(self.sub.as_str())));
        fs.push(Field::Lit(k[2].clone()));
        fs.push(Field::Int(self.exp as i128));
        fs.push(Field::Lit(k[3].clone()));
        fs.push(Field::Int(self.nbf as i128));
        fs.push(Field::Lit(k[4].clone()));
        fs.push(Field::Int(self.iat as i128));
        fs.push(Field::Lit(k[5].clone()));
        fs.push(Field::Str(chars_vec(self.jti.as_str())));
        fs.push(Field::Lit(k[6].clone()));
        fs.push(Field::Str(chars_vec(self.jty.as_str())));
        fs.push(Field::Lit(k[7].clone()));
        assert(pow10(MAX_DIGITS as nat) > 0xffff_ffff_ffff_ffff) by {
            reveal_with_fuel(pow10, 31);
        }
        assert(ints_in_range(fs@));
        let text = render_fields(&fs);
        assert(segments_of(fs@) =~= issued_claim_segments(self@));
        string_from_chars(text.as_slice())
    }

    /// Reads claims from a JSON text as `serde_json` reads them into the
    /// claims type: an object whose members, in any order and with any JSON
    /// white space, give each field once (other members are skipped); the
    /// claims it holds, or `None` (see `issued_claim_from_text`).
    pub fn from_json(text: &str) -> (r: Option<TokenClaim>)
        ensures
            match r {
                Some(c) => issued_claim_from_text(text@) == Some(c@),
                None => issued_claim_from_text(text@) is None,
            },
    {
        let t = chars_vec(text);
        let ms = match read_object(t.as_slice()) {
            Some(m) => m,
            None => return None,
        };
        let ghost v = members_view(ms@);
        let ghost n = issued_claim_names();
        let k0 = vec!['i', 's', 's'];
        let k1 = vec!['s', 'u', 'b'];
        let k2 = vec!['e', 'x', 'p'];
        let k3 = vec!['n', 'b', 'f'];
        let k4 = vec!['i', 'a', 't'];
        let k5 = vec!['j', 't', 'i'];
        let k6 = vec!['j', 't', 'y'];
        assert(k0@ =~= n[0] && k1@ =~= n[1] && k2@ =~= n[2] && k3@ =~= n[3] && k4@ =~= n[4] && k5@ =~= n[5] && k6@ =~= n[6]);
        let i0 = match find_member(&ms, k0.as_slice()) { Some(j) => j, None => return None };
        let i1 = match find_member(&ms, k1.as_slice()) { Some(j) => j, None => return None };
        let i2 = match find_member(&ms, k2.as_slice()) { Some(j) => j, None => return None };
        let i3 = match find_member(&ms, k3.as_slice()) { Some(j) => j, None => return None };
        let i4 = match find_member(&ms, k4.as_slice()) { Some(j) => j, None => return None };
        let i5 = match find_member(&ms, k5.as_slice()) { Some(j) => j, None => return None };
        let i6 = match find_member(&ms, k6.as_slice()) { Some(j) => j, None => return None };
        assert(v[i0 as int].1 == ms@[i0 as int].1@);
        assert(v[i1 as int].1 == ms@[i1 as int].1@);
        assert(v[i2 as int].1 == ms@[i2 as int].1@);
        assert(v[i3 as int].1 == ms@[i3 as int].1@);
        assert(v[i4 as int].1 == ms@[i4 as int].1@);
        assert(v[i5 as int].1 == ms@[i5 as int].1@);
        assert(v[i6 as int].1 == ms@[i6 as int].1@);
        match (&ms[i0].1, &ms[i1].1, &ms[i2].1, &ms[i3].1, &ms[i4].1, &ms[i5].1, &ms[i6].1) {
            (
                Field::Str(iss),
                Field::Str(sub),
                Field::Int(exp),
                Field::Int(nbf),
                Field::Int(iat),
                Field::Str(jti),
                Field::Str(jty),
            ) => {
                if *exp < 0 || *exp > u64::MAX as i128 || *nbf < 0 || *nbf > u64::MAX as i128 || *iat < 0
                    || *iat > u64::MAX as i128 {
                    return None;
                }
                Some(TokenClaim {
                    iss: string_from_chars(iss.as_slice()),
                    sub: string_from_chars(sub.as_slice()),
                    exp: *exp as u64,
                    nbf: *nbf as u64,
                    iat: *iat as u64,
                    jti: string_from_chars(jti.as_slice()),
                    jty: string_from_chars(jty.as_slice()),
                })
            },
            _ => None,
        }
    }

    /// The claims made for a subject at a given time with a given
    /// identifier (see `issued_claim_at`).
    pub fn at_time(user_id: &str, token_type: TokenType, now_secs: i64, now_nanos: u32, jti: u128) -> (r: Option<
        TokenClaim,
    >)
        requires
            now_nanos < 2_000_000_000,
        ensures
            match r {
                Some(c) => issued_claim_at(user_id@, token_type, now_secs as int, now_nanos as int, jti) == Some(c@),
                None => issued_claim_at(user_id@, token_type, now_secs as int, now_nanos as int, jti) is None,
            },
    {
        let duration: u64 = match token_type {
            TokenType::Access => return None,
            TokenType::Refresh => REFRESH_TOKEN_DURATION,
        };
        if now_secs < 0 {
            return None;
        }
        let carry = (now_nanos / 1_000_000_000) as i128;
        let exp = (now_secs as i128) + (duration as i128) + carry;
        if exp > i64::MAX as i128 {
            return None;
        }
        proof {
            reveal_strlit("Personal Ledger Backend");
        }
        Some(TokenClaim {
            iss: String::from_str(TOKEN_ISSUER),
            sub: String::from_str(user_id),
            exp: exp as u64,
            nbf: now_secs as u64,
            iat: now_secs as u64,
            jti: string_from_chars(hyphenated_chars(jti).as_slice()),
            jty: token_type.to_string(),
        })
    }

    /// New claims for a subject, made now with a fresh UUID version 7 as
    /// identifier, the service's issuer and the kind's lifetime (see
    /// `at_time`). The secret is not part of the claims. `None` exactly for
    /// an access token (no lifetime is defined for it): the clock gives no
    /// time before the Unix epoch, and the refresh expiry always fits.
    pub fn new(secret: &str, user_id: &str, token_type: TokenType) -> (r: Option<TokenClaim>)
        ensures
            token_type == TokenType::Access <==> r is None,
            r matches Some(c) ==> {
                &&& c.iss@ == token_issuer()
                &&& c.sub@ == user_id@
                &&& c.jty@ == token_type_text(token_type)
                &&& c.nbf == c.iat
                &&& c.iat + REFRESH_TOKEN_DURATION <= c.exp <= c.iat + REFRESH_TOKEN_DURATION + 1
                &&& exists|b: u128| uuid_version(b) == 7 && c.jti@ == hyphenated(b)
            },
    {
        let (secs, nanos) = utc_now();
        let jti = uuid_now_v7();
        let r = TokenClaim::at_time(user_id, token_type, secs, nanos, jti);
        proof {
            if r is Some {
                assert(uuid_version(jti) == 7 && r->0.jti@ == hyphenated(jti));
            }
        }
        r
    }

    /// Turns the outcome of checking a token into claims or an error (see
    /// `issued_claim_from_outcome_holds`).
    pub fn from_decoded(outcome: Result<String, JwtError>) -> (r: Result<TokenClaim, AuthenticationError>)
        ensures
            issued_claim_from_outcome_holds(outcome, r),
    {
        match outcome {
            Ok(p) => match TokenClaim::from_json(p.as_str()) {
                Some(c) => {
                    if str_equal(c.iss.as_str(), TOKEN_ISSUER) {
                        Ok(c)
                    } else {
                        Err(AuthenticationError::JsonWebToken(JwtError::InvalidIssuer.message()))
                    }
                },
                None => Err(AuthenticationError::JsonWebToken(String::from_str(
                    "JSON error: the claims do not have the token claim layout",
                ))),
            },
            Err(e) => Err(AuthenticationError::JsonWebToken(e.message())),
        }
    }

    /// Checks a token as `jsonwebtoken::decode` checks it into the claims
    /// type: the HS256 signature with the secret first, then the reading of
    /// the claims (see `from_json`), then the claim checks: expiry,
    /// not-before, the service's issuer, no audience (`accepted_audiences`) and the
    /// claims of `required_claims` present. Whether the checks pass depends
    /// on the clock; claims returned are those of the token's claims text,
    /// name the service's issuer and come from a token signed with the secret;
    /// the claims name no audience (a token that names one is refused);
    /// every failure is a `JsonWebToken` error, an issuer failure only where
    /// the claims' `iss` is not the service's issuer, and a missing-claim failure only
    /// for a required claim.
    pub fn from_token(token: &str, secret: &str) -> (r: Result<TokenClaim, AuthenticationError>)
        ensures
            r matches Ok(c) ==> issued_claim_from_text(spec_jwt_claims_text(token@)) == Some(c@),
            r matches Ok(c) ==> c.iss@ == token_issuer(),
            r is Ok ==> spec_jwt_hs256_valid(token@, secret@),
            r is Ok ==> claim_string(token@, key_aud()) is None,
            r matches Err(AuthenticationError::JsonWebToken(m)) ==> (m@ == "InvalidIssuer"@ ==> claim_string(
                token@,
                key_iss(),
            ) != Some(token_issuer())),
            r matches Err(AuthenticationError::JsonWebToken(m)) ==> (forall|n: Seq<char>|
                m@ == missing_claim_prefix() + n ==> (n == "iss"@ || n == "exp"@ || n == "nbf"@)),
            r is Err ==> r matches Err(AuthenticationError::JsonWebToken(_)),
    {
        let outcome = match signed_claims_text(token, secret) {
            Err(e) => Err(e),
            Ok(p) => match TokenClaim::from_json(p.as_str()) {
                None => Ok(p),
                Some(_) => {
                    let audiences = accepted_audiences();
                    let required = required_claims();
                    match validate_token(token, secret, TOKEN_ISSUER, audiences.as_slice(), required.as_slice(), true) {
                        Ok(()) => Ok(p),
                        Err(e) => Err(e),
                    }
                },
            },
        };
        let r = TokenClaim::from_decoded(outcome);
        proof {
            lemma_issued_parse_messages(token@, token_issuer(), outcome, r);
        }
        r
    }
}

/// Whether a token is a refresh token for a user signed with a secret:
/// the signed JWT of refresh claims made by the service for the user, with
/// the refresh lifetime.
pub open spec fn is_refresh_token_for(token: Seq<char>, secret: Seq<char>, user_id: u128) -> bool {
    exists|c: IssuedClaimValue|
        {
            &&& token == spec_jwt_encode(#[trigger] issued_claim_text(c), secret)
            &&& issued_claim_from_text(spec_jwt_claims_text(token)) == Some(c)
            &&& c.iss == token_issuer()
            &&& c.sub == hyphenated(user_id)
            &&& c.jty == token_type_text(TokenType::Refresh)
            &&& c.nbf == c.iat
            &&& c.iat + REFRESH_TOKEN_DURATION <= c.exp <= c.iat + REFRESH_TOKEN_DURATION + 1
        }
}

/// The claims that checking a refresh token made for a user reads are
/// refresh claims from the service's issuer for that user, valid from their
/// issue time for the refresh lifetime.
pub proof fn lemma_refresh_token_reads_back(token: Seq<char>, secret: Seq<char>, user_id: u128, read: IssuedClaimValue)
    requires
        is_refresh_token_for(token, secret, user_id),
        issued_claim_from_text(spec_jwt_claims_text(token)) == Some(read),
    ensures
        read.iss == token_issuer(),
        read.sub == hyphenated(user_id),
        read.jty == token_type_text(TokenType::Refresh),
        read.nbf == read.iat,
        read.iat + REFRESH_TOKEN_DURATION <= read.exp <= read.iat + REFRESH_TOKEN_DURATION + 1,
{
}

/// Signs new refresh claims for a user with a secret. Refresh claims are
/// always made and signing their JSON text always succeeds.
pub(crate) fn sign_refresh_claims(secret: &str, user_id: u128) -> (r: Result<String, AuthenticationError>)
    ensures
        r matches Ok(t) ==> is_refresh_token_for(t@, secret@, user_id),
        r is Ok,
{
    let subject = string_from_chars(hyphenated_chars(user_id).as_slice());
    let claim = match TokenClaim::new(secret, subject.as_str(), TokenType::Refresh) {
        Some(c) => c,
        None => return Err(AuthenticationError::InvalidToken(String::from_str("Token times are out of range"))),
    };
    let text = claim.to_json();
    proof {
        lemma_issued_claim_text_braced(claim@);
        lemma_issued_claim_text_roundtrip(claim@);
        lemma_issued_claim_segments_object(claim@);
        assert(render(issued_claim_segments(claim@)) == text@);
    }
    match jwt_encode(text.as_str(), secret) {
        Ok(jwt) => {
            assert(issued_claim_text(claim@) == text@);
            Ok(jwt)
        },
        Err(msg) => Err(AuthenticationError::JsonWebToken(msg)),
    }
}

} // verus!
