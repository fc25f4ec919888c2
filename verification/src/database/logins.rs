//! The logins table model: a record of a user's login. Times are
//! nanoseconds since the Unix epoch.

use vstd::prelude::*;

use crate::clock::{
    lemma_rounded_second_nearest, round_to_second, rounded_second, utc_now, MAX_UTC_SECS, MIN_UTC_SECS, NANOS_PER_SEC,
};
use crate::domain::row_id::{uuid_now_v7, uuid_version};

verus! {

/// A login record.
#[derive(Debug, Clone, PartialEq, Eq)]
pub struct Logins {
    /// Record id (UUID bits).
    pub id: u128,
    /// The user who logged in (UUID bits).
    pub user_id: u128,
    /// When the login happened (whole seconds).
    pub login_on: i128,
    /// The IPv4 address of the login request, as the database's `INT`.
    pub login_ip: Option<i32>,
}

/// The database `INT` that an IPv4 address (as its 32-bit number) is
/// stored as: the same bits read as a signed number.
pub open spec fn ip_as_int(ip: u32) -> i32 {
    ip as i32
}

impl Logins {
    /// A new login record for a user, at the given clock reading (whole
    /// seconds and nanoseconds since the Unix epoch) rounded to the nearest
    /// second, from the given IPv4 address (as its 32-bit number), stored as
    /// the same bits read as a signed number.
    pub fn new_at(user_id: u128, login_ip: Option<u32>, now_secs: i64, now_nanos: u32) -> (r: Logins)
        requires
            0 <= now_secs <= MAX_UTC_SECS,
            now_nanos < 2_000_000_000,
        ensures
            uuid_version(r.id) == 7,
            r.user_id == user_id,
            r.login_on == rounded_second(now_secs as int, now_nanos as int) * NANOS_PER_SEC,
            r.login_ip == match login_ip {
                Some(ip) => Some(ip_as_int(ip)),
                None => None::<i32>,
            },
    {
        let id = uuid_now_v7();
        let login_on = (round_to_second(now_secs, now_nanos) as i128) * 1_000_000_000;
        let login_ip = match login_ip {
            Some(ip) => Some(ip as i32),
            None => None,
        };
        Logins { id, user_id, login_on, login_ip }
    }

    /// A new login record for a user, now (rounded to the second), from the
    /// given IPv4 address (as its 32-bit number), stored as the same bits
    /// read as a signed number.
    pub fn new(user_id: u128, login_ip: Option<u32>) -> (r: Logins)
        ensures
            uuid_version(r.id) == 7,
            r.user_id == user_id,
            r.login_on % NANOS_PER_SEC == 0,
            MIN_UTC_SECS * NANOS_PER_SEC <= r.login_on <= (MAX_UTC_SECS + 2) * NANOS_PER_SEC,
            r.login_ip == match login_ip {
                Some(ip) => Some(ip_as_int(ip)),
                None => None::<i32>,
            },
    {
        let (now_secs, now_nanos) = utc_now();
        let r = Logins::new_at(user_id, login_ip, now_secs, now_nanos);
        proof {
            lemma_rounded_second_nearest(now_secs as int, now_nanos as int);
        }
        r
    }
}

} // verus!
