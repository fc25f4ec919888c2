//! The refresh token stored for a user: a signed JWT that authorises the
//! request of a new access token.

use vstd::prelude::*;

use crate::domain::token_claim::{is_refresh_token_for, sign_refresh_claims};
use crate::error::AuthenticationError;

verus! {

/// A signed JWT that authorises the request of a new access token.
#[derive(Debug, Clone, PartialEq, Eq)]
pub struct RefreshToken(String);

impl View for RefreshToken {
    type V = Seq<char>;

    closed spec fn view(&self) -> Seq<char> {
        self.0@
    }
}

impl RefreshToken {
    /// A new refresh token for the user with the given id (UUID bits),
    /// signed with the secret (see `is_refresh_token_for`). It always
    /// succeeds: refresh claims are always made and signing never fails.
    pub fn new(secret: &str, user_id: u128) -> (r: Result<RefreshToken, AuthenticationError>)
        ensures
            r matches Ok(t) ==> is_refresh_token_for(t@, secret@, user_id),
            r is Ok,
    {
        match sign_refresh_claims(secret, user_id) {
            Ok(jwt) => Ok(RefreshToken(jwt)),
            Err(e) => Err(e),
        }
    }

    /// A token held as given (as read back from storage).
    pub fn from(value: String) -> (r: RefreshToken)
        ensures
            r@ == value@,
    {
        RefreshToken(value)
    }

    /// The JWT text.
    pub fn as_str(&self) -> (r: &str)
        ensures
            r@ == self@,
    {
        self.0.as_str()
    }

    /// The JWT text, as displayed.
    pub fn to_string(&self) -> (r: String)
        ensures
            r@ == self@,
    {
        String::from_str(self.0.as_str())
    }
}

} // verus!
