//! The roles a user can have.

use vstd::prelude::*;

verus! {

/// The role of a user.
#[derive(Debug, Clone, Copy, PartialEq, Eq, Structural)]
pub enum UserRole {
    Admin,
    User,
    Guest,
}

/// The lower-case name of a role (as the database stores it).
pub open spec fn user_role_name(r: UserRole) -> Seq<char> {
    match r {
        UserRole::Admin => "admin"@,
        UserRole::User => "user"@,
        UserRole::Guest => "guest"@,
    }
}

impl UserRole {
    /// The lower-case name of the role.
    pub fn as_str(&self) -> (r: &'static str)
        ensures
            r@ == user_role_name(*self),
    {
        match self {
            UserRole::Admin => "admin",
            UserRole::User => "user",
            UserRole::Guest => "guest",
        }
    }
}

} // verus!
