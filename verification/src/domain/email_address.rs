//! Email address domain parsing.

use vstd::prelude::*;

use crate::error::AuthenticationError;
use crate::text::{blank, is_blank};

verus! {

/// A validated email address.
#[derive(Debug, Clone, PartialEq, Eq)]
pub struct EmailAddress(String);

impl View for EmailAddress {
    type V = Seq<char>;

    closed spec fn view(&self) -> Seq<char> {
        self.0@
    }
}

/// What `validator::ValidateEmail::validate_email` decides for a text.
pub uninterp spec fn spec_email_valid(s: Seq<char>) -> bool;

/// `validator::ValidateEmail::validate_email` on a string (RFC 5321 length
/// limits, the HTML5 user-part pattern and a domain check). Per its source,
/// an empty text or one without `@` is rejected; the rest is named.
#[verifier::external_body]
fn validate_email(s: &String) -> (r: bool)
    ensures
        r == spec_email_valid(s@),
        (s@.len() == 0 || !s@.contains('@')) ==> !r,
{
    validator::ValidateEmail::validate_email(s)
}

impl EmailAddress {
    /// Parses an email address given the email validator's verdict on it:
    /// `EmailIsEmpty` when it is empty or white space only,
    /// `EmailFormatInvalid` (holding the text) when the verdict is a
    /// rejection, and the address unchanged otherwise.
    pub fn parse_validated(email: String, valid: bool) -> (r: Result<EmailAddress, AuthenticationError>)
        ensures
            is_blank(email@) <==> r matches Err(AuthenticationError::EmailIsEmpty),
            (!is_blank(email@) && valid) ==> (r matches Ok(e) && e@ == email@),
            (!is_blank(email@) && !valid) ==> (r matches Err(AuthenticationError::EmailFormatInvalid(m)) && m@ == email@),
    {
        if blank(email.as_str()) {
            return Err(AuthenticationError::EmailIsEmpty);
        }
        if valid {
            Ok(EmailAddress(email))
        } else {
            Err(AuthenticationError::EmailFormatInvalid(email))
        }
    }

    /// Parses an email address, with `validator`'s verdict on it (see
    /// `parse_validated`).
    pub fn parse(email: String) -> (r: Result<EmailAddress, AuthenticationError>)
        ensures
            is_blank(email@) <==> r matches Err(AuthenticationError::EmailIsEmpty),
            (!is_blank(email@) && spec_email_valid(email@)) ==> (r matches Ok(e) && e@ == email@),
            (!is_blank(email@) && !spec_email_valid(email@)) ==> (r matches Err(
                AuthenticationError::EmailFormatInvalid(m),
            ) && m@ == email@),
            (!is_blank(email@) && !email@.contains('@')) ==> (r matches Err(
                AuthenticationError::EmailFormatInvalid(m),
            ) && m@ == email@),
    {
        let valid = validate_email(&email);
        EmailAddress::parse_validated(email, valid)
    }

    /// An address held as given, unchecked (as read back from storage).
    pub fn from(value: String) -> (r: EmailAddress)
        ensures
            r@ == value@,
    {
        EmailAddress(value)
    }

    /// The address as text.
    pub fn as_str(&self) -> (r: &str)
        ensures
            r@ == self@,
    {
        self.0.as_str()
    }

    /// The address, as displayed.
    pub fn to_string(&self) -> (r: String)
        ensures
            r@ == self@,
    {
        String::from_str(self.0.as_str())
    }
}

} // verus!
