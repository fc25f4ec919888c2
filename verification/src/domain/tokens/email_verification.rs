//! The email verification token: a signed JWT whose claims are of kind
//! `EmailVerification`, sent to a user to confirm an email address.

use vstd::prelude::*;
use vstd::string::StringExecFns;

use crate::domain::tokens::claim::{
    claim_from_text, claim_segments, in_utc_range, claim_text, lemma_claim_segments_object, lemma_claim_text_braced, lemma_claim_text_roundtrip, read_ids_back, service_audience, ClaimValue,
    TokenClaim,
};
use crate::domain::tokens::token_type::TokenType;
use crate::error::AuthenticationError;
use crate::json::render;
use crate::jwt::{jwt_encode, spec_jwt_claims_text, spec_jwt_encode, spec_jwt_hs256_valid};

verus! {

/// A signed JWT for email verification.
#[derive(Debug, Clone, PartialEq, Eq)]
pub struct EmailVerificationToken(String);

impl View for EmailVerificationToken {
    type V = Seq<char>;

    closed spec fn view(&self) -> Seq<char> {
        self.0@
    }
}

/// The claims that checking a token signed from claims reads are those
/// claims.
pub proof fn lemma_signed_claims_read_back(token: Seq<char>, signed: ClaimValue, read: ClaimValue)
    requires
        claim_from_text(spec_jwt_claims_text(token)) == Some(signed),
        claim_from_text(spec_jwt_claims_text(token)) == Some(read),
    ensures
        read == signed,
{
}

impl EmailVerificationToken {
    /// Signs email verification claims with the secret: `InvalidToken` when
    /// the claims are of another kind; otherwise the token is the signed JWT
    /// of the claims' JSON text (signing a JSON object always succeeds).
    pub fn try_from_claim(claim: TokenClaim, secret: &str) -> (r: Result<EmailVerificationToken, AuthenticationError>)
        ensures
            claim.jty != TokenType::EmailVerification ==> (r matches Err(AuthenticationError::InvalidToken(m))
                && m@ == "Token Claim is not an email verification token"@),
            claim.jty == TokenType::EmailVerification ==> r is Ok,
            r matches Ok(t) ==> claim.jty == TokenType::EmailVerification && t@ == spec_jwt_encode(claim_text(claim@), secret@),
            r matches Ok(t) ==> (in_utc_range(claim.iat as int) && in_utc_range(claim.nbf as int) && in_utc_range(
                claim.exp as int,
            ) ==> claim_from_text(spec_jwt_claims_text(t@)) == Some(claim@)),
            r matches Err(e) ==> e matches AuthenticationError::InvalidToken(_),
    {
        match claim.jty {
            TokenType::EmailVerification => {
                let text = claim.to_json();
                read_ids_back(&claim);
                proof {
                    lemma_claim_text_braced(claim@);
                    if in_utc_range(claim.iat as int) && in_utc_range(claim.nbf as int) && in_utc_range(claim.exp as int) {
                        lemma_claim_text_roundtrip(claim@);
                    }
                    lemma_claim_segments_object(claim@);
                    assert(render(claim_segments(claim@)) == text@);
                }
                match jwt_encode(text.as_str(), secret) {
                    Ok(jwt) => Ok(EmailVerificationToken(jwt)),
                    Err(msg) => Err(AuthenticationError::InvalidToken(
                        String::from_str("JWT encoding failed: ").concat(msg.as_str()),
                    )),
                }
            },
            _ => Err(AuthenticationError::InvalidToken(String::from_str("Token Claim is not an email verification token"))),
        }
    }

    /// What accepting a JWT gives for each outcome of checking it: the
    /// token as given when its claims are of kind `EmailVerification`,
    /// `InvalidToken` when they are of another kind, and the check's error
    /// when it failed.
    pub fn from_checked(jwt_string: &str, checked: Result<TokenClaim, AuthenticationError>) -> (r: Result<
        EmailVerificationToken,
        AuthenticationError,
    >)
        ensures
            match checked {
                Ok(c) => if c.jty == TokenType::EmailVerification {
                    r matches Ok(t) && t@ == jwt_string@
                } else {
                    r matches Err(AuthenticationError::InvalidToken(m)) && m@ == "JWT is not an email verification token"@
                },
                Err(e) => r == Err::<EmailVerificationToken, AuthenticationError>(e),
            },
    {
        let claim = match checked {
            Ok(c) => c,
            Err(e) => return Err(e),
        };
        match claim.jty {
            TokenType::EmailVerification => Ok(EmailVerificationToken(String::from_str(jwt_string))),
            _ => Err(AuthenticationError::InvalidToken(String::from_str("JWT is not an email verification token"))),
        }
    }

    /// Accepts a JWT as an email verification token when it checks (see
    /// `TokenClaim::parse`: signed with the secret, from the issuer, for the
    /// service's audience) and its claims are of kind `EmailVerification`;
    /// the token is the text as given (see `from_checked`).
    pub fn try_from_string(jwt_string: &str, secret: &str, issuer: &str) -> (r: Result<EmailVerificationToken, AuthenticationError>)
        ensures
            r matches Ok(t) ==> t@ == jwt_string@ && (claim_from_text(spec_jwt_claims_text(jwt_string@)) matches Some(c)
                && c.jty == TokenType::EmailVerification && c.iss == issuer@ && c.aud == service_audience()),
            r is Ok ==> spec_jwt_hs256_valid(jwt_string@, secret@),
            r is Err ==> (r matches Err(AuthenticationError::TokenExpired) || r matches Err(AuthenticationError::InvalidToken(_))),
    {
        let checked = TokenClaim::parse(jwt_string, secret, issuer);
        EmailVerificationToken::from_checked(jwt_string, checked)
    }

    /// `try_from_string` on an owned string.
    pub fn try_from_owned_string(jwt_string: String, secret: &str, issuer: &str) -> (r: Result<EmailVerificationToken, AuthenticationError>)
        ensures
            r matches Ok(t) ==> t@ == jwt_string@ && (claim_from_text(spec_jwt_claims_text(jwt_string@)) matches Some(c)
                && c.jty == TokenType::EmailVerification && c.iss == issuer@ && c.aud == service_audience()),
            r is Ok ==> spec_jwt_hs256_valid(jwt_string@, secret@),
            r is Err ==> (r matches Err(AuthenticationError::TokenExpired) || r matches Err(AuthenticationError::InvalidToken(_))),
    {
        Self::try_from_string(jwt_string.as_str(), secret, issuer)
    }

    /// The empty token.
    pub fn default() -> (r: EmailVerificationToken)
        ensures
            r@ == Seq::<char>::empty(),
    {
        EmailVerificationToken(String::new())
    }

    /// A token held as given (as read back from storage).
    pub fn from(value: String) -> (r: EmailVerificationToken)
        ensures
            r@ == value@,
    {
        EmailVerificationToken(value)
    }

    /// The JWT text.
    pub fn as_str(&self) -> (r: &str)
        ensures
            r@ == self@,
    {
        self.0.as_str()
    }

    /// The JWT text, as displayed.
    pub fn to_string(&self) -> (r: String)
        ensures
            r@ == self@,
    {
        String::from_str(self.0.as_str())
    }
}

} // verus!
