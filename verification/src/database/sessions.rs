//! The sessions table model: a user's login session, held by its refresh
//! token. Times are nanoseconds since the Unix epoch.

use vstd::prelude::*;

use crate::clock::{
    round_to_second, rounded_second, utc_now, MAX_DURATION_NANOS, MAX_UTC_SECS, MIN_UTC_SECS, NANOS_PER_SEC,
};
use crate::database::users::Users;
use crate::domain::refresh_token::RefreshToken;
use crate::domain::row_id::{uuid_now_v7, uuid_version};

verus! {

/// A session record.
#[derive(Debug, Clone, PartialEq, Eq)]
pub struct Sessions {
    /// Session id (UUID bits).
    pub id: u128,
    /// The user of the session (UUID bits).
    pub user_id: u128,
    /// When the user logged in (whole seconds).
    pub logged_in_at: i128,
    /// The IPv4 address of the login request, as the database's `INT`.
    pub login_ip: Option<i32>,
    /// When the session expires.
    pub expires_on: i128,
    /// The refresh token of the session.
    pub refresh_token: RefreshToken,
    /// Whether the session is active (a revoked session is not).
    pub is_active: bool,
    /// When the user logged out, if they did.
    pub logged_out_at: Option<i128>,
    /// The IPv4 address of the logout request, if any.
    pub logout_ip: Option<i32>,
}

impl Sessions {
    /// A new active session for a user, logged in at the given clock
    /// reading (whole seconds and nanoseconds since the Unix epoch) rounded
    /// to the nearest second, from the given address, expiring after the given lifetime
    /// (whole seconds and nanoseconds), held by the refresh token.
    pub fn new_at(
        user: &Users,
        login_ip: Option<i32>,
        duration_secs: u64,
        duration_nanos: u32,
        refresh_token: &RefreshToken,
        now_secs: i64,
        now_nanos: u32,
    ) -> (r: Result<Sessions, crate::error::AuthenticationError>)
        requires
            duration_nanos < 1_000_000_000,
            0 <= now_secs <= MAX_UTC_SECS,
            now_nanos < 2_000_000_000,
            duration_secs * NANOS_PER_SEC + duration_nanos <= MAX_DURATION_NANOS,
        ensures
            r matches Ok(s) && {
                &&& uuid_version(s.id) == 7
                &&& s.user_id == user.id
                &&& s.logged_in_at == rounded_second(now_secs as int, now_nanos as int) * NANOS_PER_SEC
                &&& s.logged_in_at % NANOS_PER_SEC == 0
                &&& MIN_UTC_SECS * NANOS_PER_SEC <= s.logged_in_at <= (MAX_UTC_SECS + 2) * NANOS_PER_SEC
                &&& s.login_ip == login_ip
                &&& s.expires_on == s.logged_in_at + duration_secs * NANOS_PER_SEC + duration_nanos
                &&& s.refresh_token@ == refresh_token@
                &&& s.is_active
                &&& s.logged_out_at is None
                &&& s.logout_ip is None
            },
    {
        let id = uuid_now_v7();
        let logged_in_at = (round_to_second(now_secs, now_nanos) as i128) * 1_000_000_000;
        let duration = (duration_secs as i128) * 1_000_000_000 + (duration_nanos as i128);
        Ok(Sessions {
            id,
            user_id: user.id,
            logged_in_at,
            login_ip,
            expires_on: logged_in_at + duration,
            refresh_token: RefreshToken::from(String::from_str(refresh_token.as_str())),
            is_active: true,
            logged_out_at: None,
            logout_ip: None,
        })
    }

    /// A new active session for a user, logged in now (rounded to the
    /// second) from the given address, expiring after the given lifetime
    /// (whole seconds and nanoseconds), held by the refresh token.
    pub fn new(
        user: &Users,
        login_ip: Option<i32>,
        duration_secs: u64,
        duration_nanos: u32,
        refresh_token: &RefreshToken,
    ) -> (r: Result<Sessions, crate::error::AuthenticationError>)
        requires
            duration_nanos < 1_000_000_000,
            duration_secs * NANOS_PER_SEC + duration_nanos <= MAX_DURATION_NANOS,
        ensures
            r matches Ok(s) && {
                &&& uuid_version(s.id) == 7
                &&& s.user_id == user.id
                &&& s.logged_in_at % NANOS_PER_SEC == 0
                &&& MIN_UTC_SECS * NANOS_PER_SEC <= s.logged_in_at <= (MAX_UTC_SECS + 2) * NANOS_PER_SEC
                &&& s.login_ip == login_ip
                &&& s.expires_on == s.logged_in_at + duration_secs * NANOS_PER_SEC + duration_nanos
                &&& s.refresh_token@ == refresh_token@
                &&& s.is_active
                &&& s.logged_out_at is None
                &&& s.logout_ip is None
            },
    {
        let (now_secs, now_nanos) = utc_now();
        Sessions::new_at(user, login_ip, duration_secs, duration_nanos, refresh_token, now_secs, now_nanos)
    }
}

} // verus!
