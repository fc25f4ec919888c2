//! The users table model.

use vstd::prelude::*;

use crate::domain::email_address::EmailAddress;
use crate::domain::user_role::UserRole;
use crate::domains::password_hash::PasswordHash;
use crate::domains::user_name::UserName;

verus! {

/// A user record.
#[derive(Debug, Clone, PartialEq, Eq)]
pub struct Users {
    /// Unique id (UUID bits).
    pub id: u128,
    /// Email address.
    pub email: EmailAddress,
    /// Display name.
    pub name: UserName,
    /// Argon2id PHC hash of the password.
    pub password_hash: PasswordHash,
    /// Role.
    pub role: UserRole,
    /// Whether the account is active.
    pub is_active: bool,
    /// Whether the email address was verified.
    pub is_verified: bool,
    /// Creation time (nanoseconds since the Unix epoch).
    pub created_on: i128,
}

} // verus!
