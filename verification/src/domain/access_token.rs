//! The access token: a signed JWT that authorises requests to the service's
//! endpoints, and its reading from a request's `authorization` header.

use vstd::prelude::*;

use crate::database::users::Users;
use crate::domain::jwt_token::{
    lemma_role_claim_segments_object, lemma_role_claim_text_braced, lemma_role_claim_text_roundtrip,
    role_claim_from_text, role_claim_segments, role_claim_text, token_type_text, RoleClaimValue, TokenClaim, TokenType,
};
use crate::json::render;
use crate::domain::user_role::user_role_name;
use crate::clock::MAX_UTC_SECS;
use crate::error::AuthenticationError;
use crate::jwt::{jwt_encode, spec_jwt_claims_text, spec_jwt_encode};
use crate::text::{chars_vec, string_from_chars};
use crate::uuid_text::hyphenated;

verus! {

/// A signed JWT that authorises requests.
#[derive(Debug, Clone, PartialEq, Eq)]
pub struct AccessToken(String);

impl View for AccessToken {
    type V = Seq<char>;

    closed spec fn view(&self) -> Seq<char> {
        self.0@
    }
}

/// The prefix that marks a bearer token in an `authorization` header.
pub open spec fn bearer() -> Seq<char> {
    "Bearer "@
}

/// A text with every occurrence of `"Bearer "` removed, scanning from the
/// left (`str::replace("Bearer ", "")`).
pub open spec fn without_bearer(s: Seq<char>) -> Seq<char>
    decreases s.len(),
{
    if s.len() == 0 {
        s
    } else if s.len() >= 7 && s.take(7) == bearer() {
        without_bearer(s.skip(7))
    } else {
        seq![s[0]] + without_bearer(s.skip(1))
    }
}

/// Whether a text holds `"Bearer "` somewhere.
pub open spec fn holds_bearer(s: Seq<char>) -> bool {
    exists|i: int| 0 <= i && i + 7 <= s.len() && #[trigger] s.subrange(i, i + 7) == bearer()
}

/// Whether a byte is visible ASCII (or a tab), as header values require to
/// be read as text (`HeaderValue::to_str`).
pub open spec fn visible_ascii(b: u8) -> bool {
    (32 <= b && b < 127) || b == 9
}

/// Whether every byte of a header value is visible ASCII.
pub open spec fn all_visible_ascii(bs: Seq<u8>) -> bool {
    forall|i: int| 0 <= i < bs.len() ==> visible_ascii(#[trigger] bs[i])
}

/// The text of header bytes that are all visible ASCII: one character each.
pub open spec fn ascii_text(bs: Seq<u8>) -> Seq<char> {
    bs.map_values(|b: u8| b as char)
}

/// The message of a request without an `authorization` header.
pub open spec fn header_missing_message() -> Seq<char> {
    "Authorization header not found"@
}

/// The message of an `authorization` header that is not text.
pub open spec fn header_not_text_message() -> Seq<char> {
    "Authorization header is not a valid string"@
}

/// A text without `"Bearer "` is left as it is.
proof fn lemma_without_bearer_identity(s: Seq<char>)
    requires
        !holds_bearer(s),
    ensures
        without_bearer(s) == s,
    decreases s.len(),
{
    if s.len() > 0 {
        if s.len() >= 7 && s.take(7) == bearer() {
            assert(s.subrange(0, 0int + 7) =~= s.take(7));
            assert(holds_bearer(s));
        }
        let t = s.skip(1);
        assert forall|i: int| 0 <= i && i + 7 <= t.len() implies #[trigger] t.subrange(i, i + 7) != bearer() by {
            assert(t.subrange(i, i + 7) =~= s.subrange(i + 1, i + 1 + 7));
        }
        lemma_without_bearer_identity(t);
        assert(seq![s[0]] + t =~= s);
    }
}

/// The token of an `authorization` header `"Bearer "` followed by a token
/// that does not itself hold `"Bearer "` is that token.
pub proof fn lemma_bearer_header_gives_token(token: Seq<char>)
    requires
        !holds_bearer(token),
    ensures
        without_bearer(bearer() + token) == token,
{
    let s = bearer() + token;
    reveal_strlit("Bearer ");
    assert(s.take(7) =~= bearer());
    assert(s.skip(7) =~= token);
    lemma_without_bearer_identity(token);
}

/// Whether `"Bearer "` (given as `pat`) starts at position `i` of a text.
fn bearer_at(s: &Vec<char>, pat: &Vec<char>, i: usize) -> (r: bool)
    requires
        pat@ == bearer(),
        pat@.len() == 7,
        i <= s@.len(),
    ensures
        r == (i + 7 <= s@.len() && s@.subrange(i as int, i + 7) == bearer()),
{
    if s.len() - i < 7 {
        return false;
    }
    let mut j: usize = 0;
    while j < 7
        invariant
            i + 7 <= s.len(),
            j <= 7,
            pat@ == bearer(),
            pat@.len() == 7,
            forall|k: int| 0 <= k < j ==> s@[i + k] == pat@[k],
        decreases 7 - j,
    {
        if s[i + j] != pat[j] {
            assert(s@.subrange(i as int, i + 7)[j as int] == s@[i + j]);
            return false;
        }
        j = j + 1;
    }
    assert(s@.subrange(i as int, i + 7) =~= bearer());
    true
}

/// Removes every `"Bearer "` from a text.
fn remove_bearer(s: &Vec<char>) -> (r: Vec<char>)
    ensures
        r@ == without_bearer(s@),
{
    let pat = chars_vec("Bearer ");
    proof {
        reveal_strlit("Bearer ");
    }
    let mut out: Vec<char> = Vec::new();
    let mut i: usize = 0;
    assert(s@.skip(0) =~= s@);
    while i < s.len()
        invariant
            i <= s@.len(),
            pat@ == bearer(),
            pat@.len() == 7,
            out@ + without_bearer(s@.skip(i as int)) == without_bearer(s@),
        decreases s@.len() - i,
    {
        let ghost rest = s@.skip(i as int);
        let matched = bearer_at(s, &pat, i);
        assert(rest.len() >= 7 ==> rest.take(7) =~= s@.subrange(i as int, i + 7));
        if matched {
            assert(rest.skip(7) =~= s@.skip(i + 7));
            i = i + 7;
        } else {
            let ghost before = out@;
            out.push(s[i]);
            assert(rest.skip(1) =~= s@.skip(i + 1));
            assert(rest[0] == s@[i as int]);
            assert(out@ + without_bearer(rest.skip(1)) =~= before + (seq![rest[0]] + without_bearer(rest.skip(1))));
            i = i + 1;
        }
    }
    assert(s@.skip(i as int) =~= Seq::<char>::empty());
    assert(out@ + Seq::<char>::empty() =~= out@);
    out
}

/// Whether a token is an access token for a user: the signed JWT (with the
/// secret) of `Access` claims from the issuer for the user, with the given
/// lifetime in whole seconds (up to two seconds more, from the clock's and
/// the lifetime's fractions), whose claims text reads back to those claims.
pub open spec fn is_access_token_for(
    token: Seq<char>,
    secret: Seq<char>,
    issuer: Seq<char>,
    duration_secs: int,
    user: Users,
) -> bool {
    exists|c: RoleClaimValue|
        {
            &&& token == spec_jwt_encode(#[trigger] role_claim_text(c), secret)
            &&& role_claim_from_text(spec_jwt_claims_text(token)) == Some(c)
            &&& c.iss == issuer
            &&& c.sub == hyphenated(user.id)
            &&& c.jty == token_type_text(TokenType::Access)
            &&& c.jur == user_role_name(user.role)
            &&& c.nbf == c.iat
            &&& c.iat + duration_secs <= c.exp <= c.iat + duration_secs + 2
        }
}

/// The claims that checking an access token made for a user reads are
/// `Access` claims from the issuer for that user, valid from their issue
/// time for the token's lifetime.
pub proof fn lemma_access_token_reads_back(
    token: Seq<char>,
    secret: Seq<char>,
    issuer: Seq<char>,
    duration_secs: int,
    user: Users,
    read: RoleClaimValue,
)
    requires
        is_access_token_for(token, secret, issuer, duration_secs, user),
        role_claim_from_text(spec_jwt_claims_text(token)) == Some(read),
    ensures
        read.iss == issuer,
        read.sub == hyphenated(user.id),
        read.jty == token_type_text(TokenType::Access),
        read.jur == user_role_name(user.role),
        read.nbf == read.iat,
        read.iat + duration_secs <= read.exp <= read.iat + duration_secs + 2,
{
}

impl AccessToken {
    /// A new access token for a user: `Access` claims made now with the
    /// issuer and lifetime (see `jwt_token::TokenClaim::new`), signed with
    /// the secret. `InvalidToken` ("Token times are out of range") exactly
    /// where the expiry does not fit an `i64` second (see
    /// `jwt_token::TokenClaim::new`); signing the claims' JSON text always
    /// succeeds.
    pub fn new(secret: &str, issuer: &str, duration_secs: u64, duration_nanos: u32, user: &Users) -> (r: Result<
        AccessToken,
        AuthenticationError,
    >)
        requires
            duration_nanos < 1_000_000_000,
        ensures
            r matches Ok(t) ==> is_access_token_for(t@, secret@, issuer@, duration_secs as int, *user),
            r matches Err(e) ==> (e matches AuthenticationError::InvalidToken(m) && m@ == "Token times are out of range"@),
            duration_secs <= i64::MAX - MAX_UTC_SECS - 2 ==> r is Ok,
            r is Err ==> duration_secs > i64::MAX - MAX_UTC_SECS - 2,
    {
        let claim = match TokenClaim::new(issuer, duration_secs, duration_nanos, user, TokenType::Access) {
            Some(c) => c,
            None => return Err(AuthenticationError::InvalidToken(String::from_str("Token times are out of range"))),
        };
        let text = claim.to_json();
        proof {
            lemma_role_claim_text_braced(claim@);
            lemma_role_claim_text_roundtrip(claim@);
            lemma_role_claim_segments_object(claim@);
            assert(render(role_claim_segments(claim@)) == text@);
        }
        match jwt_encode(text.as_str(), secret) {
            Ok(jwt) => {
                assert(role_claim_text(claim@) == text@);
                Ok(AccessToken(jwt))
            },
            Err(msg) => Err(AuthenticationError::JsonWebToken(msg)),
        }
    }

    /// Reads the access token from a request's `authorization` header, given
    /// as its bytes (`None` when the request has none): an
    /// `AuthenticationError` when the header is missing or is not visible
    /// ASCII text; otherwise the header's text with every `"Bearer "`
    /// removed.
    pub fn parse_header(authorization: Option<Vec<u8>>) -> (r: Result<AccessToken, AuthenticationError>)
        ensures
            authorization is None ==> (r matches Err(AuthenticationError::AuthenticationError(m))
                && m@ == header_missing_message()),
            authorization matches Some(bs) ==> (if all_visible_ascii(bs@) {
                r matches Ok(t) && t@ == without_bearer(ascii_text(bs@))
            } else {
                r matches Err(AuthenticationError::AuthenticationError(m)) && m@ == header_not_text_message()
            }),
    {
        let ghost given = authorization;
        let bytes = match authorization {
            Some(b) => b,
            None => {
                let m = String::from_str("Authorization header not found");
                assert(m@ == header_missing_message());
                let e = AuthenticationError::AuthenticationError(m);
                assert(e matches AuthenticationError::AuthenticationError(mm) && mm@ == header_missing_message());
                return Err(e);
            },
        };
        let mut text: Vec<char> = Vec::new();
        let mut i: usize = 0;
        while i < bytes.len()
            invariant
                i <= bytes@.len(),
                given == Some(bytes),
                given == authorization,
                forall|k: int| 0 <= k < i ==> visible_ascii(#[trigger] bytes@[k]),
                text@ == ascii_text(bytes@.take(i as int)),
            decreases bytes@.len() - i,
        {
            let b = bytes[i];
            if !((32 <= b && b < 127) || b == 9) {
                assert(!visible_ascii(bytes@[i as int]));
                assert(!all_visible_ascii(bytes@));
                return Err(AuthenticationError::AuthenticationError(
                    String::from_str("Authorization header is not a valid string"),
                ));
            }
            text.push(b as char);
            i = i + 1;
            assert(ascii_text(bytes@.take(i as int)) =~= ascii_text(bytes@.take(i - 1)).push(b as char));
        }
        assert(bytes@.take(i as int) =~= bytes@);
        let token = remove_bearer(&text);
        Ok(AccessToken(string_from_chars(token.as_slice())))
    }

    /// The token held as given.
    pub fn from(value: String) -> (r: AccessToken)
        ensures
            r@ == value@,
    {
        AccessToken(value)
    }

    /// The JWT text.
    pub fn as_str(&self) -> (r: &str)
        ensures
            r@ == self@,
    {
        self.0.as_str()
    }

    /// The JWT text, as displayed.
    pub fn to_string(&self) -> (r: String)
        ensures
            r@ == self@,
    {
        String::from_str(self.0.as_str())
    }
}

} // verus!
