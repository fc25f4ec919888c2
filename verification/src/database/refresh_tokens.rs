//! The refresh tokens table models: a user's refresh token and whether it
//! is still active. Times are nanoseconds since the Unix epoch.

use vstd::prelude::*;

use crate::clock::{now_nanos, MAX_UTC_SECS, MIN_UTC_SECS, NANOS_PER_SEC};
use crate::database::users::Users;
use crate::domain::refresh_token::RefreshToken;
use crate::domain::row_id::{uuid_now_v7, uuid_version};
use crate::domain::token_claim::is_refresh_token_for;
use crate::domains::refresh_token::RefreshToken as StoredRefreshToken;
use crate::error::AuthenticationError;

verus! {

/// A refresh token record.
#[derive(Debug, Clone, PartialEq, Eq)]
pub struct RefreshTokens {
    /// Record id (UUID bits).
    pub id: u128,
    /// The token's user (UUID bits).
    pub user_id: u128,
    /// The refresh token.
    pub token: RefreshToken,
    /// Whether the token may still be used.
    pub is_active: bool,
    /// When the record was created.
    pub created_on: i128,
}

impl RefreshTokens {
    /// A new active record for a user with a fresh refresh token signed
    /// with the secret (see `RefreshToken::new`, which always succeeds).
    pub fn new(user: &Users, token_secret: &str) -> (r: Result<RefreshTokens, AuthenticationError>)
        ensures
            r matches Ok(t) ==> {
                &&& uuid_version(t.id) == 7
                &&& t.user_id == user.id
                &&& is_refresh_token_for(t.token@, token_secret@, user.id)
                &&& t.is_active
                &&& MIN_UTC_SECS * NANOS_PER_SEC <= t.created_on < (MAX_UTC_SECS + 2) * NANOS_PER_SEC
            },
            r is Ok,
    {
        let id = uuid_now_v7();
        let token = match RefreshToken::new(token_secret, user) {
            Ok(t) => t,
            Err(e) => return Err(e),
        };
        let created_on = now_nanos();
        Ok(RefreshTokens { id, user_id: user.id, token, is_active: true, created_on })
    }
}

/// A stored refresh token record.
#[derive(Debug, Clone, PartialEq, Eq)]
pub struct RefreshTokenModel {
    /// Record id (UUID bits).
    pub id: u128,
    /// The token's user (UUID bits).
    pub user_id: u128,
    /// The refresh token.
    pub refresh_token: StoredRefreshToken,
    /// Whether the token may still be used.
    pub is_active: bool,
    /// When the record was created.
    pub created_on: i128,
}

impl RefreshTokenModel {
    /// A new active record for a user holding the given token text.
    pub fn new(user_id: u128, refresh_token: &str) -> (r: RefreshTokenModel)
        ensures
            uuid_version(r.id) == 7,
            r.user_id == user_id,
            r.refresh_token@ == refresh_token@,
            r.is_active,
            MIN_UTC_SECS * NANOS_PER_SEC <= r.created_on < (MAX_UTC_SECS + 2) * NANOS_PER_SEC,
    {
        let id = uuid_now_v7();
        let created_on = now_nanos();
        RefreshTokenModel {
            id,
            user_id,
            refresh_token: StoredRefreshToken::from(String::from_str(refresh_token)),
            is_active: true,
            created_on,
        }
    }
}

} // verus!
