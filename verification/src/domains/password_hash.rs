//! Password hash domain: a password that met the policy, hashed with Argon2id.

use vstd::prelude::*;
use vstd::string::StringSliceAdditionalSpecFns;

use crate::domains::password::{
    argon2_hash_password, argon2_verify_password, generate_salt, meets_password_policy,
    password_meets_policy, service_hasher, service_phc_prefix, spec_argon2_verifies, starts_with,
};
use crate::error::AuthenticationError;

verus! {

/// An Argon2id PHC hash string of a password.
#[derive(Debug, Clone, PartialEq, Eq)]
pub struct PasswordHash(String);

impl View for PasswordHash {
    type V = Seq<char>;

    closed spec fn view(&self) -> Seq<char> {
        self.0@
    }
}

impl PasswordHash {
    /// Hashes a password that meets the policy: `PasswordFormatInvalid` when
    /// it does not; `PasswordParseError` when the hasher reports an error.
    /// The hash made verifies the password it was made of.
    pub fn parse(password: &str) -> (r: Result<PasswordHash, AuthenticationError>)
        ensures
            !meets_password_policy(password.spec_bytes()) <==> r matches Err(AuthenticationError::PasswordFormatInvalid),
            r matches Ok(h) ==> spec_argon2_verifies(password.spec_bytes(), h@) == Some(true),
            meets_password_policy(password.spec_bytes()) ==> (r matches Ok(h) && starts_with(h@, service_phc_prefix())),
            r is Err ==> r matches Err(AuthenticationError::PasswordFormatInvalid)
                || r matches Err(AuthenticationError::PasswordParseError),
    {
        if !password_meets_policy(password) {
            return Err(AuthenticationError::PasswordFormatInvalid);
        }
        let salt = generate_salt();
        let hasher = service_hasher();
        match argon2_hash_password(&hasher, password.as_bytes(), &salt) {
            Ok(h) => Ok(PasswordHash(h)),
            Err(_) => Err(AuthenticationError::PasswordParseError),
        }
    }

    /// Verifies a password against this hash: `Ok(true)` or `Ok(false)` as
    /// Argon2 verification decides, `PasswordParseError` when the held string
    /// is not a PHC hash.
    pub fn verify_password(&self, password: &str) -> (r: Result<bool, AuthenticationError>)
        ensures
            match spec_argon2_verifies(password.spec_bytes(), self@) {
                Some(v) => r == Ok::<bool, AuthenticationError>(v),
                None => r matches Err(AuthenticationError::PasswordParseError),
            },
    {
        let hasher = service_hasher();
        match argon2_verify_password(&hasher, password.as_bytes(), self.0.as_str()) {
            Some(v) => Ok(v),
            None => Err(AuthenticationError::PasswordParseError),
        }
    }

    /// A hash held as given (as read back from storage).
    pub fn from(value: String) -> (r: PasswordHash)
        ensures
            r@ == value@,
    {
        PasswordHash(value)
    }

    /// The hash string.
    pub fn as_str(&self) -> (r: &str)
        ensures
            r@ == self@,
    {
        self.0.as_str()
    }

    /// The hash string, as displayed.
    pub fn to_string(&self) -> (r: String)
        ensures
            r@ == self@,
    {
        String::from_str(self.0.as_str())
    }
}

} // verus!
