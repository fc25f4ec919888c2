//! The kinds of token the service issues.

use vstd::prelude::*;

verus! {

/// The kind of a token.
#[derive(Debug, Clone, Copy, PartialEq, Eq, Structural)]
pub enum TokenType {
    Access,
    Refresh,
    EmailVerification,
    PasswordReset,
}

/// The lower-case name that a token kind is displayed as.
pub open spec fn token_type_name(t: TokenType) -> Seq<char> {
    match t {
        TokenType::Access => "access"@,
        TokenType::Refresh => "refresh"@,
        TokenType::EmailVerification => "email_verification"@,
        TokenType::PasswordReset => "password_reset"@,
    }
}

/// A uniformly random index below `n` (`rand::Rng::gen_range(0..n)` on the
/// thread random number generator). The value is chance; the contract
/// states only its range.
#[verifier::external_body]
pub(crate) fn random_index(n: usize) -> (r: usize)
    requires
        n > 0,
    ensures
        r < n,
{
    rand::Rng::gen_range(&mut rand::thread_rng(), 0..n)
}

impl TokenType {
    /// The default kind: `Access`.
    pub fn default() -> (r: TokenType)
        ensures
            r == TokenType::Access,
    {
        TokenType::Access
    }

    /// The lower-case name of the kind (its `Display` text).
    pub fn to_string(&self) -> (r: String)
        ensures
            r@ == token_type_name(*self),
    {
        match self {
            TokenType::Access => String::from_str("access"),
            TokenType::Refresh => String::from_str("refresh"),
            TokenType::EmailVerification => String::from_str("email_verification"),
            TokenType::PasswordReset => String::from_str("password_reset"),
        }
    }

    /// The kind at an index of the list of the four kinds, in declaration
    /// order.
    pub fn from_index(i: usize) -> (r: TokenType)
        requires
            i < 4,
        ensures
            r == seq![TokenType::Access, TokenType::Refresh, TokenType::EmailVerification, TokenType::PasswordReset][i as int],
    {
        match i {
            0 => TokenType::Access,
            1 => TokenType::Refresh,
            2 => TokenType::EmailVerification,
            _ => TokenType::PasswordReset,
        }
    }

    /// A token kind picked at random among the four: the kind at a random
    /// index (see `from_index`).
    pub fn random() -> (r: TokenType) {
        TokenType::from_index(random_index(4))
    }
}

} // verus!
