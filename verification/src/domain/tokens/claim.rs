//! Token claims: the standard JWT claims (`jti`, `iss`, `sub`, `aud`, `iat`,
//! `nbf`, `exp`) and the token kind (`jty`), their JSON text, and the
//! creation and checking of claims.

use vstd::prelude::*;

use crate::clock::{now_seconds, spec_utc_display, utc_display, MAX_DURATION_NANOS, MAX_UTC_SECS, MIN_UTC_SECS};
use crate::domain::row_id::{spec_uuid_parse, uuid_now_v7, uuid_version, RowID};
use crate::domain::tokens::token_type::{token_type_name, TokenType};
use crate::database::users::Users;
use crate::error::AuthenticationError;
use crate::json::{
    render_fields, Field, Segment, pow10, MAX_DIGITS, render, segments_of, ints_in_range, lemma_render_braced,
    without_outer_whitespace, is_key_piece, is_object_layout, lemma_short_key_piece,
};
use crate::json_object::{
    distinct_names, find_member, ints_bounded, lemma_layout_members_index, lemma_member_of_names,
    lemma_object_roundtrip, layout_members, member, members_view, parse_object, read_object, seg_key,
};
use crate::jwt::{
    claim_string, is_other_message, jwt_error_text, key_aud, key_iss, missing_claim_prefix, signed_claims_text,
    spec_jwt_claims_text, spec_jwt_hs256_valid, validate_token, JwtError,
};
use crate::text::{chars_equal, chars_vec, str_equal, string_from_chars};
use vstd::string::StringExecFns;
use crate::uuid_text::{hyphenated, hyphenated_chars};

verus! {

/// The audience that the service writes in, and requires of, its tokens.
pub open spec fn service_audience() -> Seq<char> {
    "authentication_service"@
}

/// The claims of a token.
#[derive(Debug, Clone, PartialEq, Eq)]
pub struct TokenClaim {
    /// Unique token identifier (UUID bits).
    pub jti: u128,
    /// Token kind.
    pub jty: TokenType,
    /// Issuer.
    pub iss: String,
    /// Subject: the user's id (UUID bits).
    pub sub: u128,
    /// Audience.
    pub aud: String,
    /// Issued at (seconds since the Unix epoch).
    pub iat: i64,
    /// Not before (seconds since the Unix epoch).
    pub nbf: i64,
    /// Expiration (seconds since the Unix epoch).
    pub exp: i64,
}

/// The claims of a token, as a mathematical value.
pub struct ClaimValue {
    pub jti: u128,
    pub jty: TokenType,
    pub iss: Seq<char>,
    pub sub: u128,
    pub aud: Seq<char>,
    pub iat: int,
    pub nbf: int,
    pub exp: int,
}

impl View for TokenClaim {
    type V = ClaimValue;

    open spec fn view(&self) -> ClaimValue {
        ClaimValue {
            jti: self.jti,
            jty: self.jty,
            iss: self.iss@,
            sub: self.sub,
            aud: self.aud@,
            iat: self.iat as int,
            nbf: self.nbf as int,
            exp: self.exp as int,
        }
    }
}

/// The name `serde` writes for a token kind (its variant name).
pub open spec fn token_type_json_name(t: TokenType) -> Seq<char> {
    match t {
        TokenType::Access => "Access"@,
        TokenType::Refresh => "Refresh"@,
        TokenType::EmailVerification => "EmailVerification"@,
        TokenType::PasswordReset => "PasswordReset"@,
    }
}

/// The token kind named by a `serde` variant name.
pub open spec fn token_type_from_json_name(s: Seq<char>) -> Option<TokenType> {
    if s == "Access"@ {
        Some(TokenType::Access)
    } else if s == "Refresh"@ {
        Some(TokenType::Refresh)
    } else if s == "EmailVerification"@ {
        Some(TokenType::EmailVerification)
    } else if s == "PasswordReset"@ {
        Some(TokenType::PasswordReset)
    } else {
        None
    }
}

/// The key pieces of the claims layout, in order.
pub open spec fn claim_keys() -> Seq<Seq<char>> {
    seq![
        "{\"jti\":"@,
        ",\"jty\":"@,
        ",\"iss\":"@,
        ",\"sub\":"@,
        ",\"aud\":"@,
        ",\"iat\":"@,
        ",\"nbf\":"@,
        ",\"exp\":"@,
        "}"@,
    ]
}

/// The segments of the JSON text of claims: the fields in declaration
/// order, as `serde_json` writes the claims.
pub open spec fn claim_segments(c: ClaimValue) -> Seq<Segment> {
    let k = claim_keys();
    seq![
        Segment::Lit(k[0]),
        Segment::Str(hyphenated(c.jti)),
        Segment::Lit(k[1]),
        Segment::Str(token_type_json_name(c.jty)),
        Segment::Lit(k[2]),
        Segment::Str(c.iss),
        Segment::Lit(k[3]),
        Segment::Str(hyphenated(c.sub)),
        Segment::Lit(k[4]),
        Segment::Str(c.aud),
        Segment::Lit(k[5]),
        Segment::Int(c.iat),
        Segment::Lit(k[6]),
        Segment::Int(c.nbf),
        Segment::Lit(k[7]),
        Segment::Int(c.exp),
        Segment::Lit(k[8]),
    ]
}

/// The JSON text of claims.
pub open spec fn claim_text(c: ClaimValue) -> Seq<char> {
    render(claim_segments(c))
}

/// Whether a second is one that `chrono::DateTime<Utc>` holds (what
/// `chrono::serde::ts_seconds` reads a time into).
pub open spec fn in_utc_range(v: int) -> bool {
    MIN_UTC_SECS <= v <= MAX_UTC_SECS
}

/// The keys of the claims, in declaration order.
pub open spec fn claim_names() -> Seq<Seq<char>> {
    seq![
        seq!['j', 't', 'i'],
        seq!['j', 't', 'y'],
        seq!['i', 's', 's'],
        seq!['s', 'u', 'b'],
        seq!['a', 'u', 'd'],
        seq!['i', 'a', 't'],
        seq!['n', 'b', 'f'],
        seq!['e', 'x', 'p'],
    ]
}

/// The claims that the members of a JSON object hold: each field read from
/// the member with its key (other members are skipped), ids as UUID text
/// that `uuid::Uuid::parse_str` reads, the kind by its variant name and the times as integer
/// seconds that `chrono::DateTime<Utc>` holds.
pub open spec fn claim_from_members(ms: Seq<(Seq<char>, Segment)>) -> Option<ClaimValue> {
    let n = claim_names();
    match (
        member(ms, n[0]),
        member(ms, n[1]),
        member(ms, n[2]),
        member(ms, n[3]),
        member(ms, n[4]),
        member(ms, n[5]),
        member(ms, n[6]),
        member(ms, n[7]),
    ) {
        (
            Some(Segment::Str(jti)),
            Some(Segment::Str(jty)),
            Some(Segment::Str(iss)),
            Some(Segment::Str(sub)),
            Some(Segment::Str(aud)),
            Some(Segment::Int(iat)),
            Some(Segment::Int(nbf)),
            Some(Segment::Int(exp)),
        ) => match (spec_uuid_parse(jti), token_type_from_json_name(jty), spec_uuid_parse(sub)) {
            (Some(jti), Some(jty), Some(sub)) => if in_utc_range(iat) && in_utc_range(nbf) && in_utc_range(exp) {
                Some(ClaimValue { jti, jty, iss, sub, aud, iat, nbf, exp })
            } else {
                None
            },
            _ => None,
        },
        _ => None,
    }
}

/// What reading a claims text gives: the claims of the JSON object it
/// holds (see `claim_from_members`), or `None`.
pub open spec fn claim_from_text(t: Seq<char>) -> Option<ClaimValue> {
    match parse_object(t) {
        Some(ms) => claim_from_members(ms),
        None => None,
    }
}

/// The key pieces of the claims layout, character by character.
proof fn lemma_claim_keys_chars()
    ensures
        claim_keys()[0] == seq!['{', '"', 'j', 't', 'i', '"', ':'],
        claim_keys()[1] == seq![',', '"', 'j', 't', 'y', '"', ':'],
        claim_keys()[2] == seq![',', '"', 'i', 's', 's', '"', ':'],
        claim_keys()[3] == seq![',', '"', 's', 'u', 'b', '"', ':'],
        claim_keys()[4] == seq![',', '"', 'a', 'u', 'd', '"', ':'],
        claim_keys()[5] == seq![',', '"', 'i', 'a', 't', '"', ':'],
        claim_keys()[6] == seq![',', '"', 'n', 'b', 'f', '"', ':'],
        claim_keys()[7] == seq![',', '"', 'e', 'x', 'p', '"', ':'],
        claim_keys()[8] == seq!['}'],
{
    reveal_strlit("{\"jti\":");
    reveal_strlit(",\"jty\":");
    reveal_strlit(",\"iss\":");
    reveal_strlit(",\"sub\":");
    reveal_strlit(",\"aud\":");
    reveal_strlit(",\"iat\":");
    reveal_strlit(",\"nbf\":");
    reveal_strlit(",\"exp\":");
    reveal_strlit("}");
    let k = claim_keys();
    assert(k[0] =~= seq!['{', '"', 'j', 't', 'i', '"', ':']);
    assert(k[1] =~= seq![',', '"', 'j', 't', 'y', '"', ':']);
    assert(k[2] =~= seq![',', '"', 'i', 's', 's', '"', ':']);
    assert(k[3] =~= seq![',', '"', 's', 'u', 'b', '"', ':']);
    assert(k[4] =~= seq![',', '"', 'a', 'u', 'd', '"', ':']);
    assert(k[5] =~= seq![',', '"', 'i', 'a', 't', '"', ':']);
    assert(k[6] =~= seq![',', '"', 'n', 'b', 'f', '"', ':']);
    assert(k[7] =~= seq![',', '"', 'e', 'x', 'p', '"', ':']);
    assert(k[8] =~= seq!['}']);
}

proof fn lemma_claim_names_distinct()
    ensures
        distinct_names(claim_names()),
{
    let n = claim_names();
    assert forall|a: int, b: int| 0 <= a < n.len() && 0 <= b < n.len() && a != b implies n[a] != n[b] by {
        assert(0 <= a < 8 && 0 <= b < 8);
        if n[a] == n[b] {
            assert(n[a][0] == n[b][0] && n[a][1] == n[b][1] && n[a][2] == n[b][2]);
            assert(a == 0 || a == 1 || a == 2 || a == 3 || a == 4 || a == 5 || a == 6 || a == 7);
            assert(b == 0 || b == 1 || b == 2 || b == 3 || b == 4 || b == 5 || b == 6 || b == 7);
        }
    }
}

proof fn lemma_token_type_names(t: TokenType, s: Seq<char>)
    ensures
        token_type_from_json_name(token_type_json_name(t)) == Some(t),
        token_type_from_json_name(s) == Some(t) ==> s == token_type_json_name(t),
{
    reveal_strlit("Access");
    reveal_strlit("Refresh");
    reveal_strlit("EmailVerification");
    reveal_strlit("PasswordReset");
    assert("Access"@[0] != "Refresh"@[0]);
    assert("Access"@[0] != "EmailVerification"@[0]);
    assert("Access"@[0] != "PasswordReset"@[0]);
    assert("Refresh"@[0] != "EmailVerification"@[0]);
    assert("Refresh"@[0] != "PasswordReset"@[0]);
    assert("EmailVerification"@[0] != "PasswordReset"@[0]);
}

/// The segments of the JSON text of claims lay out a compact JSON object.
pub proof fn lemma_claim_segments_object(c: ClaimValue)
    ensures
        is_object_layout(claim_segments(c)),
{
    let k = claim_keys();
    let gs = claim_segments(c);
    reveal_strlit("{\"jti\":");
    reveal_strlit(",\"jty\":");
    reveal_strlit(",\"iss\":");
    reveal_strlit(",\"sub\":");
    reveal_strlit(",\"aud\":");
    reveal_strlit(",\"iat\":");
    reveal_strlit(",\"nbf\":");
    reveal_strlit(",\"exp\":");
    reveal_strlit("}");
    assert(k[0] =~= seq!['{', '"', 'j', 't', 'i', '"', ':']);
    lemma_short_key_piece(k[0], '{', 'j', 't', 'i');
    assert(k[1] =~= seq![',', '"', 'j', 't', 'y', '"', ':']);
    lemma_short_key_piece(k[1], ',', 'j', 't', 'y');
    assert(k[2] =~= seq![',', '"', 'i', 's', 's', '"', ':']);
    lemma_short_key_piece(k[2], ',', 'i', 's', 's');
    assert(k[3] =~= seq![',', '"', 's', 'u', 'b', '"', ':']);
    lemma_short_key_piece(k[3], ',', 's', 'u', 'b');
    assert(k[4] =~= seq![',', '"', 'a', 'u', 'd', '"', ':']);
    lemma_short_key_piece(k[4], ',', 'a', 'u', 'd');
    assert(k[5] =~= seq![',', '"', 'i', 'a', 't', '"', ':']);
    lemma_short_key_piece(k[5], ',', 'i', 'a', 't');
    assert(k[6] =~= seq![',', '"', 'n', 'b', 'f', '"', ':']);
    lemma_short_key_piece(k[6], ',', 'n', 'b', 'f');
    assert(k[7] =~= seq![',', '"', 'e', 'x', 'p', '"', ':']);
    lemma_short_key_piece(k[7], ',', 'e', 'x', 'p');
    assert(k[8] =~= seq!['}']);
    assert forall|i: int| 0 <= i < gs.len() - 1 && i % 2 == 0 implies
        ((#[trigger] gs[i]) matches Segment::Lit(l) && is_key_piece(l, if i == 0 { '{' } else { ',' })) by {
        assert(i == 0 || i == 2 || i == 4 || i == 6 || i == 8 || i == 10 || i == 12 || i == 14);
    }
    assert forall|i: int| 0 <= i < gs.len() - 1 && i % 2 == 1 implies !((#[trigger] gs[i]) is Lit) by {
        assert(i == 1 || i == 3 || i == 5 || i == 7 || i == 9 || i == 11 || i == 13 || i == 15);
    }
}

/// The JSON text of claims starts with `{` and ends with `}`.
pub proof fn lemma_claim_text_braced(c: ClaimValue)
    ensures
        without_outer_whitespace(claim_text(c)),
{
    reveal_strlit("{\"jti\":");
    reveal_strlit("}");
    let gs = claim_segments(c);
    assert(gs.last() == Segment::Lit(claim_keys()[8]));
    assert(claim_keys()[8] =~= seq!['}']);
    lemma_render_braced(gs);
}

proof fn lemma_claim_ints_bounded(c: ClaimValue)
    requires
        in_utc_range(c.iat),
        in_utc_range(c.nbf),
        in_utc_range(c.exp),
    ensures
        ints_bounded(claim_segments(c)),
{
    let gs = claim_segments(c);
    assert(pow10(MAX_DIGITS as nat) > 0x7fff_ffff_ffff_ffff) by {
        reveal_with_fuel(pow10, 31);
    }
    assert forall|i: int| 0 <= i < gs.len() implies match #[trigger] gs[i] {
        Segment::Int(x) => -pow10(MAX_DIGITS as nat) < x < pow10(MAX_DIGITS as nat),
        _ => true,
    } by {
        assert(0 <= i < 17);
    }
}

/// The members read from the JSON text of claims: each key in declaration
/// order with its field's value.
#[verifier::spinoff_prover]
proof fn lemma_claim_members(c: ClaimValue)
    requires
        in_utc_range(c.iat),
        in_utc_range(c.nbf),
        in_utc_range(c.exp),
    ensures
        ({
            let ms = layout_members(claim_segments(c));
            let n = claim_names();
            &&& parse_object(claim_text(c)) == Some(ms)
            &&& ms.len() == 8
            &&& forall|a: int| 0 <= a < ms.len() ==> (#[trigger] ms[a]).0 == n[a]
            &&& ms[0].1 == Segment::Str(hyphenated(c.jti))
            &&& ms[1].1 == Segment::Str(token_type_json_name(c.jty))
            &&& ms[2].1 == Segment::Str(c.iss)
            &&& ms[3].1 == Segment::Str(hyphenated(c.sub))
            &&& ms[4].1 == Segment::Str(c.aud)
            &&& ms[5].1 == Segment::Int(c.iat)
            &&& ms[6].1 == Segment::Int(c.nbf)
            &&& ms[7].1 == Segment::Int(c.exp)
        }),
{
    let gs = claim_segments(c);
    lemma_claim_segments_object(c);
    lemma_claim_ints_bounded(c);
    lemma_object_roundtrip(gs);
    let ms = layout_members(gs);
    lemma_layout_members_index(gs);
    lemma_claim_keys_chars();
    let n = claim_names();
    assert(seg_key(gs[0]) =~= n[0]);
    assert(seg_key(gs[2]) =~= n[1]);
    assert(seg_key(gs[4]) =~= n[2]);
    assert(seg_key(gs[6]) =~= n[3]);
    assert(seg_key(gs[8]) =~= n[4]);
    assert(seg_key(gs[10]) =~= n[5]);
    assert(seg_key(gs[12]) =~= n[6]);
    assert(seg_key(gs[14]) =~= n[7]);
    assert forall|a: int| 0 <= a < ms.len() implies (#[trigger] ms[a]).0 == n[a] by {
        assert(ms[a] == (seg_key(gs[2 * a]), gs[2 * a + 1]));
        assert(a == 0 || a == 1 || a == 2 || a == 3 || a == 4 || a == 5 || a == 6 || a == 7);
    }
    assert(ms[0] == (seg_key(gs[0]), gs[1]));
    assert(ms[1] == (seg_key(gs[2]), gs[3]));
    assert(ms[2] == (seg_key(gs[4]), gs[5]));
    assert(ms[3] == (seg_key(gs[6]), gs[7]));
    assert(ms[4] == (seg_key(gs[8]), gs[9]));
    assert(ms[5] == (seg_key(gs[10]), gs[11]));
    assert(ms[6] == (seg_key(gs[12]), gs[13]));
    assert(ms[7] == (seg_key(gs[14]), gs[15]));
}

/// Reading the JSON text of claims gives the claims back (where `uuid`
/// reads the hyphenated text of the ids back to them, as `read_ids_back`
/// shows).
pub proof fn lemma_claim_text_roundtrip(c: ClaimValue)
    requires
        in_utc_range(c.iat),
        in_utc_range(c.nbf),
        in_utc_range(c.exp),
        spec_uuid_parse(hyphenated(c.jti)) == Some(c.jti),
        spec_uuid_parse(hyphenated(c.sub)) == Some(c.sub),
    ensures
        claim_from_text(claim_text(c)) == Some(c),
{
    lemma_claim_members(c);
    let ms = layout_members(claim_segments(c));
    let n = claim_names();
    lemma_claim_names_distinct();
    lemma_member_of_names(ms, n, 0);
    lemma_member_of_names(ms, n, 1);
    lemma_member_of_names(ms, n, 2);
    lemma_member_of_names(ms, n, 3);
    lemma_member_of_names(ms, n, 4);
    lemma_member_of_names(ms, n, 5);
    lemma_member_of_names(ms, n, 6);
    lemma_member_of_names(ms, n, 7);
    lemma_token_type_names(c.jty, token_type_json_name(c.jty));
}

/// Reads the hyphenated text of the claims' ids back with `uuid`'s parser,
/// which gives each id back.
pub(crate) fn read_ids_back(c: &TokenClaim)
    ensures
        spec_uuid_parse(hyphenated(c.jti)) == Some(c.jti),
        spec_uuid_parse(hyphenated(c.sub)) == Some(c.sub),
{
    proof {
        crate::uuid_text::lemma_hyphenated_roundtrip(c.jti, hyphenated(c.jti));
        crate::uuid_text::lemma_hyphenated_roundtrip(c.sub, hyphenated(c.sub));
    }
    let jti = string_from_chars(hyphenated_chars(c.jti).as_slice());
    let sub = string_from_chars(hyphenated_chars(c.sub).as_slice());
    let _ = RowID::from_str(jti.as_str());
    let _ = RowID::from_str(sub.as_str());
}

/// The text of a token kind's `serde` name.
fn token_type_json_chars(t: TokenType) -> (r: Vec<char>)
    ensures
        r@ == token_type_json_name(t),
{
    match t {
        TokenType::Access => chars_vec("Access"),
        TokenType::Refresh => chars_vec("Refresh"),
        TokenType::EmailVerification => chars_vec("EmailVerification"),
        TokenType::PasswordReset => chars_vec("PasswordReset"),
    }
}

/// The token kind named by a `serde` variant name.
fn token_type_from_json_chars(s: &[char]) -> (r: Option<TokenType>)
    ensures
        r == token_type_from_json_name(s@),
{
    let a = chars_vec("Access");
    let b = chars_vec("Refresh");
    let c = chars_vec("EmailVerification");
    let d = chars_vec("PasswordReset");
    if chars_equal(s, a.as_slice()) {
        Some(TokenType::Access)
    } else if chars_equal(s, b.as_slice()) {
        Some(TokenType::Refresh)
    } else if chars_equal(s, c.as_slice()) {
        Some(TokenType::EmailVerification)
    } else if chars_equal(s, d.as_slice()) {
        Some(TokenType::PasswordReset)
    } else {
        None
    }
}

/// The key pieces of the layout, as text.
fn claim_key_chars() -> (r: Vec<Vec<char>>)
    ensures
        r@.len() == 9,
        forall|i: int| 0 <= i < 9 ==> (#[trigger] r@[i])@ == claim_keys()[i],
{
    let mut r: Vec<Vec<char>> = Vec::new();
    r.push(chars_vec("{\"jti\":"));
    r.push(chars_vec(",\"jty\":"));
    r.push(chars_vec(",\"iss\":"));
    r.push(chars_vec(",\"sub\":"));
    r.push(chars_vec(",\"aud\":"));
    r.push(chars_vec(",\"iat\":"));
    r.push(chars_vec(",\"nbf\":"));
    r.push(chars_vec(",\"exp\":"));
    r.push(chars_vec("}"));
    r
}

/// The whole seconds of a span given in nanoseconds, rounded down (towards
/// negative infinity for a negative span).
fn whole_seconds_below(nanos: i128) -> (r: i64)
    requires
        -MAX_DURATION_NANOS <= nanos <= MAX_DURATION_NANOS,
    ensures
        r == nanos / 1_000_000_000,
{
    if nanos >= 0 {
        let q = (nanos as u128) / 1_000_000_000;
        assert(q == nanos / 1_000_000_000);
        q as i64
    } else {
        let m = (-nanos) as u128;
        let c = (m + 999_999_999) / 1_000_000_000;
        assert(-(c as int) == nanos / 1_000_000_000) by (nonlinear_arith)
            requires
                m == -nanos,
                nanos < 0,
                c == (m + 999_999_999) / 1_000_000_000,
        {
            let f = nanos / 1_000_000_000;
            let rem = nanos % 1_000_000_000;
            assert(nanos == f * 1_000_000_000 + rem && 0 <= rem < 1_000_000_000);
            assert(m + 999_999_999 == (-f) * 1_000_000_000 + (999_999_999 - rem));
        }
        -(c as i64)
    }
}

impl TokenClaim {
    /// The JSON text of the claims, as `serde_json` writes them: the fields
    /// in declaration order, ids as hyphenated UUIDs, the kind by its variant
    /// name and the times as whole seconds.
    pub fn to_json(&self) -> (r: String)
        ensures
            r@ == claim_text(self@),
    {
        let k = claim_key_chars();
        let mut fs: Vec<Field> = Vec::new();
        fs.push(Field::Lit(k[0].clone()));
        fs.push(Field::Str(hyphenated_chars(self.jti)));
        fs.push(Field::Lit(k[1].clone()));
        fs.push(Field::Str(token_type_json_chars(self.jty)));
        fs.push(Field::Lit(k[2].clone()));
        fs.push(Field::Str(chars_vec(self.iss.as_str())));
        fs.push(Field::Lit(k[3].clone()));
        fs.push(Field::Str(hyphenated_chars(self.sub)));
        fs.push(Field::Lit(k[4].clone()));
        fs.push(Field::Str(chars_vec(self.aud.as_str())));
        fs.push(Field::Lit(k[5].clone()));
        fs.push(Field::Int(self.iat as i128));
        fs.push(Field::Lit(k[6].clone()));
        fs.push(Field::Int(self.nbf as i128));
        fs.push(Field::Lit(k[7].clone()));
        fs.push(Field::Int(self.exp as i128));
        fs.push(Field::Lit(k[8].clone()));
        assert(pow10(MAX_DIGITS as nat) > 0x7fff_ffff_ffff_ffff) by {
            reveal_with_fuel(pow10, 31);
        }
        assert(ints_in_range(fs@));
        let text = render_fields(&fs);
        assert(segments_of(fs@) =~= claim_segments(self@));
        string_from_chars(text.as_slice())
    }

    /// Reads claims from a JSON text as `serde_json` reads them into the
    /// claims type: an object whose members, in any order and with any JSON
    /// white space, give each field once (other members are skipped); the
    /// claims it holds, or `None` (see `claim_from_text`).
    pub fn from_json(text: &str) -> (r: Option<TokenClaim>)
        ensures
            match r {
                Some(c) => claim_from_text(text@) == Some(c@),
                None => claim_from_text(text@) is None,
            },
    {
        let t = chars_vec(text);
        let ms = match read_object(t.as_slice()) {
            Some(m) => m,
            None => return None,
        };
        let ghost v = members_view(ms@);
        let ghost n = claim_names();
        let k0 = vec!['j', 't', 'i'];
        let k1 = vec!['j', 't', 'y'];
        let k2 = vec!['i', 's', 's'];
        let k3 = vec!['s', 'u', 'b'];
        let k4 = vec!['a', 'u', 'd'];
        let k5 = vec!['i', 'a', 't'];
        let k6 = vec!['n', 'b', 'f'];
        let k7 = vec!['e', 'x', 'p'];
        assert(k0@ =~= n[0] && k1@ =~= n[1] && k2@ =~= n[2] && k3@ =~= n[3]);
        assert(k4@ =~= n[4] && k5@ =~= n[5] && k6@ =~= n[6] && k7@ =~= n[7]);
        let i0 = match find_member(&ms, k0.as_slice()) { Some(j) => j, None => return None };
        let i1 = match find_member(&ms, k1.as_slice()) { Some(j) => j, None => return None };
        let i2 = match find_member(&ms, k2.as_slice()) { Some(j) => j, None => return None };
        let i3 = match find_member(&ms, k3.as_slice()) { Some(j) => j, None => return None };
        let i4 = match find_member(&ms, k4.as_slice()) { Some(j) => j, None => return None };
        let i5 = match find_member(&ms, k5.as_slice()) { Some(j) => j, None => return None };
        let i6 = match find_member(&ms, k6.as_slice()) { Some(j) => j, None => return None };
        let i7 = match find_member(&ms, k7.as_slice()) { Some(j) => j, None => return None };
        assert(v[i0 as int].1 == ms@[i0 as int].1@ && v[i1 as int].1 == ms@[i1 as int].1@);
        assert(v[i2 as int].1 == ms@[i2 as int].1@ && v[i3 as int].1 == ms@[i3 as int].1@);
        assert(v[i4 as int].1 == ms@[i4 as int].1@ && v[i5 as int].1 == ms@[i5 as int].1@);
        assert(v[i6 as int].1 == ms@[i6 as int].1@ && v[i7 as int].1 == ms@[i7 as int].1@);
        match (&ms[i0].1, &ms[i1].1, &ms[i2].1, &ms[i3].1, &ms[i4].1, &ms[i5].1, &ms[i6].1, &ms[i7].1) {
            (
                Field::Str(jti),
                Field::Str(jty),
                Field::Str(iss),
                Field::Str(sub),
                Field::Str(aud),
                Field::Int(iat),
                Field::Int(nbf),
                Field::Int(exp),
            ) => {
                let jti_v = RowID::from_str(string_from_chars(jti.as_slice()).as_str());
                let jty_v = token_type_from_json_chars(jty.as_slice());
                let sub_v = RowID::from_str(string_from_chars(sub.as_slice()).as_str());
                match (jti_v, jty_v, sub_v) {
                    (Ok(RowID(jti_b)), Some(kind), Ok(RowID(sub_b))) => {
                        if *iat < MIN_UTC_SECS as i128 || *iat > MAX_UTC_SECS as i128 || *nbf < MIN_UTC_SECS as i128
                            || *nbf > MAX_UTC_SECS as i128 || *exp < MIN_UTC_SECS as i128 || *exp > MAX_UTC_SECS as i128 {
                            return None;
                        }
                        Some(TokenClaim {
                            jti: jti_b,
                            jty: kind,
                            iss: string_from_chars(iss.as_slice()),
                            sub: sub_b,
                            aud: string_from_chars(aud.as_slice()),
                            iat: *iat as i64,
                            nbf: *nbf as i64,
                            exp: *exp as i64,
                        })
                    },
                    _ => None,
                }
            },
            _ => None,
        }
    }

    /// New claims for a user: issued now (the current second), valid from
    /// then, expiring at the second that the lifetime (in nanoseconds, and
    /// possibly negative) after the issue time falls in, with a fresh UUID
    /// version 7 as identifier and the service's audience.
    pub fn new(issuer: &str, duration_nanos: i128, user: &Users, token_type: TokenType) -> (r: TokenClaim)
        requires
            -MAX_DURATION_NANOS <= duration_nanos <= MAX_DURATION_NANOS,
        ensures
            r.iss@ == issuer@,
            r.sub == user.id,
            r.aud@ == service_audience(),
            r.jty == token_type,
            r.nbf == r.iat,
            r.exp == r.iat + duration_nanos / 1_000_000_000,
            0 <= r.iat <= MAX_UTC_SECS,
            uuid_version(r.jti) == 7,
    {
        let now = now_seconds();
        let jti = uuid_now_v7();
        let whole = whole_seconds_below(duration_nanos);
        TokenClaim {
            jti,
            jty: token_type,
            iss: String::from_str(issuer),
            sub: user.id,
            aud: String::from_str("authentication_service"),
            iat: now,
            nbf: now,
            exp: now + whole,
        }
    }
}

/// The text that claims are displayed as: every field, the ids as
/// hyphenated UUIDs, the kind by its lower-case name and the times as
/// `chrono` writes them.
pub open spec fn claim_display(c: ClaimValue) -> Seq<char> {
    "TokenClaim { jti: "@ + hyphenated(c.jti) + ", jty: "@ + token_type_name(c.jty) + ", iss: "@ + c.iss + ", sub: "@
        + hyphenated(c.sub) + ", aud: "@ + c.aud + ", iat: "@ + spec_utc_display(c.iat, 0) + ", nbf: "@
        + spec_utc_display(c.nbf, 0) + ", exp: "@ + spec_utc_display(c.exp, 0) + " }"@
}

impl TokenClaim {
    /// The claims as displayed (see `claim_display`).
    pub fn to_string(&self) -> (r: String)
        requires
            MIN_UTC_SECS <= self.iat <= MAX_UTC_SECS,
            MIN_UTC_SECS <= self.nbf <= MAX_UTC_SECS,
            MIN_UTC_SECS <= self.exp <= MAX_UTC_SECS,
        ensures
            r@ == claim_display(self@),
    {
        let jti = string_from_chars(hyphenated_chars(self.jti).as_slice());
        let sub = string_from_chars(hyphenated_chars(self.sub).as_slice());
        let jty = self.jty.to_string();
        let iat = utc_display(self.iat, 0);
        let nbf = utc_display(self.nbf, 0);
        let exp = utc_display(self.exp, 0);
        let r = String::from_str("TokenClaim { jti: ").concat(jti.as_str()).concat(", jty: ").concat(jty.as_str())
            .concat(", iss: ").concat(self.iss.as_str()).concat(", sub: ").concat(sub.as_str()).concat(", aud: ")
            .concat(self.aud.as_str()).concat(", iat: ").concat(iat.as_str()).concat(", nbf: ").concat(nbf.as_str())
            .concat(", exp: ").concat(exp.as_str()).concat(" }");
        r
    }
}

/// The message of the error for a claims text that is not the text of any
/// claims (what the JSON reading of the claims reports).
pub open spec fn claims_layout_message() -> Seq<char> {
    "JWT decode failed: JSON error: the claims do not have the token claim layout"@
}

/// What checking a token gives for each outcome of `jsonwebtoken`'s check:
/// the claims read from the claims text when they name the issuer and the
/// service's audience, or the error that the outcome is reported as.
pub open spec fn claim_from_outcome_holds(
    outcome: Result<String, JwtError>,
    issuer: Seq<char>,
    r: Result<TokenClaim, AuthenticationError>,
) -> bool {
    match outcome {
        Ok(p) => match claim_from_text(p@) {
            Some(c) => if c.iss != issuer {
                r matches Err(AuthenticationError::InvalidToken(m)) && m@ == "Token issuer is invalid"@
            } else if c.aud != service_audience() {
                r matches Err(AuthenticationError::InvalidToken(m)) && m@ == "JWT decode failed: InvalidAudience"@
            } else {
                r matches Ok(x) && x@ == c
            },
            None => r matches Err(AuthenticationError::InvalidToken(m)) && m@ == claims_layout_message(),
        },
        Err(JwtError::ExpiredSignature) => r matches Err(AuthenticationError::TokenExpired),
        Err(JwtError::InvalidToken) => r matches Err(AuthenticationError::InvalidToken(m)) && m@ == "Token format is invalid"@,
        Err(JwtError::InvalidIssuer) => r matches Err(AuthenticationError::InvalidToken(m)) && m@ == "Token issuer is invalid"@,
        Err(JwtError::ImmatureSignature) => r matches Err(AuthenticationError::InvalidToken(m)) && m@ == "Token is not yet valid (nbf claim)"@,
        Err(e) => r matches Err(AuthenticationError::InvalidToken(m)) && m@ == "JWT decode failed: "@ + jwt_error_text(e),
    }
}

/// The message of a token missing a required claim.
pub open spec fn missing_claim_message(n: Seq<char>) -> Seq<char> {
    "JWT decode failed: "@ + missing_claim_prefix() + n
}

/// Whether a name is one of the claims a token must hold (see
/// `required_claims`).
pub open spec fn is_required_claim(n: Seq<char>) -> bool {
    n == "iss"@ || n == "iat"@ || n == "exp"@ || n == "nbf"@
}

/// What the messages of checking a token tell, for the outcomes that the
/// checks give: an issuer message only where the claims' `iss` is not the
/// issuer, an audience message only where their `aud` is not the
/// service's, a missing-claim message only for a required claim.
proof fn lemma_parse_messages(
    token: Seq<char>,
    issuer: Seq<char>,
    outcome: Result<String, JwtError>,
    r: Result<TokenClaim, AuthenticationError>,
)
    requires
        claim_from_outcome_holds(outcome, issuer, r),
        outcome matches Ok(p) ==> (p@ == spec_jwt_claims_text(token)),
        outcome matches Err(JwtError::InvalidIssuer) ==> claim_string(token, key_iss()) != Some(issuer),
        outcome matches Err(JwtError::InvalidAudience) ==> claim_string(token, key_aud()) != Some(service_audience()),
        outcome matches Err(JwtError::MissingRequiredClaim(c)) ==> is_required_claim(c@),
        outcome matches Err(JwtError::Other(m)) ==> is_other_message(m@),
    ensures
        r matches Err(AuthenticationError::InvalidToken(m)) ==> (m@ == "Token issuer is invalid"@ ==> claim_string(
            token,
            key_iss(),
        ) != Some(issuer)),
        r matches Err(AuthenticationError::InvalidToken(m)) ==> (m@ == "JWT decode failed: InvalidAudience"@
            ==> claim_string(token, key_aud()) != Some(service_audience())),
        r matches Err(AuthenticationError::InvalidToken(m)) ==> (forall|n: Seq<char>|
            m@ == #[trigger] missing_claim_message(n) ==> is_required_claim(n)),
{
    reveal_strlit("Token issuer is invalid");
    reveal_strlit("JWT decode failed: InvalidAudience");
    reveal_strlit("JWT decode failed: ");
    reveal_strlit("JWT decode failed: JSON error: the claims do not have the token claim layout");
    reveal_strlit("Token format is invalid");
    reveal_strlit("Token is not yet valid (nbf claim)");
    reveal_strlit("Missing required claim: ");
    reveal_strlit("InvalidAudience");
    let pre = "JWT decode failed: "@;
    let iss_msg = "Token issuer is invalid"@;
    let aud_msg = "JWT decode failed: InvalidAudience"@;
    assert(aud_msg =~= pre + "InvalidAudience"@);
    assert forall|x: Seq<char>| #![trigger pre + x] (pre + x)[0] == 'J' && (pre + x) != iss_msg by {
        assert((pre + x)[0] == pre[0]);
        if pre + x == iss_msg {
            assert(iss_msg[0] == 'T');
        }
    }
    assert forall|n: Seq<char>| #[trigger] missing_claim_message(n) == pre + (missing_claim_prefix() + n)
        && missing_claim_message(n)[19] == 'M' && missing_claim_message(n)[0] == 'J' by {
        assert(missing_claim_message(n) =~= pre + (missing_claim_prefix() + n));
    }
    if let Err(AuthenticationError::InvalidToken(m)) = r {
        match outcome {
            Ok(p) => {
                match claim_from_text(p@) {
                    Some(c) => {
                        lemma_claim_members_read(p@, c);
                        if c.iss != issuer {
                            assert(m@ == iss_msg);
                            assert(m@[0] == 'T');
                            assert(m@ != aud_msg);
                        } else {
                            assert(m@ == aud_msg);
                            assert(m@[19] == 'I');
                        }
                    },
                    None => {
                        assert(m@[19] == 'J');
                        assert(m@[0] == 'J');
                        assert(m@ != iss_msg);
                    },
                }
            },
            Err(e) => {
                match e {
                    JwtError::InvalidToken => {
                        assert(m@[0] == 'T');
                        assert(m@[6] == 'f');
                        assert(m@ != iss_msg);
                    },
                    JwtError::ImmatureSignature => {
                        assert(m@[0] == 'T');
                        assert(m@[8] == ' ');
                        assert(m@ != iss_msg);
                    },
                    JwtError::InvalidIssuer => {
                        assert(m@[0] == 'T');
                    },
                    JwtError::InvalidAudience => {
                        assert(m@ == pre + "InvalidAudience"@);
                        assert(m@[19] == 'I');
                    },
                    JwtError::MissingRequiredClaim(c) => {
                        assert(m@ == pre + (missing_claim_prefix() + c@));
                        assert(m@[19] == 'M');
                        assert forall|n: Seq<char>| m@ == #[trigger] missing_claim_message(n) implies is_required_claim(n) by {
                            crate::jwt::lemma_prefix_cancel(pre, missing_claim_prefix() + n, missing_claim_prefix() + c@);
                            crate::jwt::lemma_prefix_cancel(missing_claim_prefix(), n, c@);
                        }
                    },
                    JwtError::Other(msg) => {
                        assert(m@ == pre + msg@);
                        if m@ == aud_msg {
                            crate::jwt::lemma_prefix_cancel(pre, msg@, "InvalidAudience"@);
                        }
                        assert forall|n: Seq<char>| m@ == #[trigger] missing_claim_message(n) implies is_required_claim(n) by {
                            crate::jwt::lemma_prefix_cancel(pre, msg@, missing_claim_prefix() + n);
                            assert(msg@.subrange(0, 24) =~= missing_claim_prefix());
                        }
                    },
                    JwtError::ExpiredSignature => {},
                }
            },
        }
    }
}

/// Claims read from a claims text hold the `iss` and `aud` that the text
/// holds as strings.
proof fn lemma_claim_members_read(t: Seq<char>, c: ClaimValue)
    requires
        claim_from_text(t) == Some(c),
    ensures
        match parse_object(t) {
            Some(ms) => member(ms, key_iss()) == Some(Segment::Str(c.iss)) && member(ms, key_aud()) == Some(Segment::Str(c.aud)),
            None => false,
        },
{
    assert(claim_names()[2] =~= key_iss());
    assert(claim_names()[4] =~= key_aud());
}

/// The audiences a token is checked against: the service's own.
pub fn accepted_audiences() -> (r: Vec<&'static str>)
    ensures
        r@.len() == 1,
        r@[0]@ == service_audience(),
{
    let mut r: Vec<&'static str> = Vec::new();
    r.push("authentication_service");
    r
}

/// The claims a token must hold: `iss`, `iat`, `exp` and `nbf`.
pub fn required_claims() -> (r: Vec<&'static str>)
    ensures
        r@.len() == 4,
        r@[0]@ == "iss"@,
        r@[1]@ == "iat"@,
        r@[2]@ == "exp"@,
        r@[3]@ == "nbf"@,
{
    let mut r: Vec<&'static str> = Vec::new();
    r.push("iss");
    r.push("iat");
    r.push("exp");
    r.push("nbf");
    r
}

impl TokenClaim {
    /// Turns the outcome of checking a token into claims or an error: an
    /// expired token is `TokenExpired`; a malformed token, a wrong issuer, a
    /// token not yet valid or any other failure is `InvalidToken` with a
    /// message saying which; a checked token whose claims text is not the
    /// text of claims, or whose claims name another issuer or audience, is
    /// `InvalidToken` too.
    pub fn from_decoded(outcome: Result<String, JwtError>, issuer: &str) -> (r: Result<TokenClaim, AuthenticationError>)
        ensures
            claim_from_outcome_holds(outcome, issuer@, r),
    {
        match outcome {
            Ok(p) => match TokenClaim::from_json(p.as_str()) {
                Some(c) => {
                    if !str_equal(c.iss.as_str(), issuer) {
                        Err(AuthenticationError::InvalidToken(String::from_str("Token issuer is invalid")))
                    } else if !str_equal(c.aud.as_str(), "authentication_service") {
                        Err(AuthenticationError::InvalidToken(String::from_str("JWT decode failed: InvalidAudience")))
                    } else {
                        Ok(c)
                    }
                },
                None => Err(AuthenticationError::InvalidToken(String::from_str(
                    "JWT decode failed: JSON error: the claims do not have the token claim layout",
                ))),
            },
            Err(JwtError::ExpiredSignature) => Err(AuthenticationError::TokenExpired),
            Err(JwtError::InvalidToken) => Err(AuthenticationError::InvalidToken(String::from_str("Token format is invalid"))),
            Err(JwtError::InvalidIssuer) => Err(AuthenticationError::InvalidToken(String::from_str("Token issuer is invalid"))),
            Err(JwtError::ImmatureSignature) => Err(
                AuthenticationError::InvalidToken(String::from_str("Token is not yet valid (nbf claim)")),
            ),
            Err(e) => Err(AuthenticationError::InvalidToken(
                String::from_str("JWT decode failed: ").concat(e.message().as_str()),
            )),
        }
    }

    /// Checks a token as `jsonwebtoken::decode` checks it into the claims
    /// type: the HS256 signature with the secret first, then the reading of
    /// the claims (see `from_json`), then the claim checks: expiry,
    /// not-before, the issuer, the audiences of `accepted_audiences` and the
    /// claims of `required_claims` present (`iat` is asked for too, which
    /// `jsonwebtoken` does not check). Whether the checks pass depends on the
    /// clock; whatever they give, claims returned are those of the token's
    /// claims text, name the issuer and the service's audience, and come
    /// from a token signed with the secret; an issuer failure comes only
    /// where the claims' `iss` is not the issuer, an audience failure only
    /// where their `aud` is not the service's audience, and a missing-claim
    /// failure names a required claim; every failure is `TokenExpired` or
    /// `InvalidToken` as `from_decoded` says.
    pub fn parse(token: &str, secret: &str, issuer: &str) -> (r: Result<TokenClaim, AuthenticationError>)
        ensures
            r matches Ok(c) ==> claim_from_text(spec_jwt_claims_text(token@)) == Some(c@),
            r matches Ok(c) ==> c.iss@ == issuer@ && c.aud@ == service_audience(),
            r is Ok ==> spec_jwt_hs256_valid(token@, secret@),
            r matches Err(AuthenticationError::InvalidToken(m)) ==> (m@ == "Token issuer is invalid"@ ==> claim_string(
                token@,
                key_iss(),
            ) != Some(issuer@)),
            r matches Err(AuthenticationError::InvalidToken(m)) ==> (m@ == "JWT decode failed: InvalidAudience"@
                ==> claim_string(token@, key_aud()) != Some(service_audience())),
            r matches Err(AuthenticationError::InvalidToken(m)) ==> (forall|n: Seq<char>|
                m@ == #[trigger] missing_claim_message(n) ==> is_required_claim(n)),
            r is Err ==> (r matches Err(AuthenticationError::TokenExpired) || r matches Err(AuthenticationError::InvalidToken(_))),
    {
        let outcome = match signed_claims_text(token, secret) {
            Err(e) => Err(e),
            Ok(p) => match TokenClaim::from_json(p.as_str()) {
                None => Ok(p),
                Some(_) => {
                    let audiences = accepted_audiences();
                    let required = required_claims();
                    match validate_token(token, secret, issuer, audiences.as_slice(), required.as_slice(), true) {
                        Ok(()) => Ok(p),
                        Err(e) => Err(e),
                    }
                },
            },
        };
        let r = TokenClaim::from_decoded(outcome, issuer);
        proof {
            lemma_parse_messages(token@, issuer@, outcome, r);
        }
        r
    }
}

} // verus!
