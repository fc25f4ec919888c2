//! Email verification records, and the checks on pagination inputs made
//! before the records are queried.

use vstd::prelude::*;

use crate::clock::{now_nanos, spec_utc_display, utc_display, MAX_DURATION_NANOS, MAX_UTC_SECS, MIN_UTC_SECS, NANOS_PER_SEC};
use crate::database::users::Users;
use crate::domain::row_id::{uuid_version, RowID};
use crate::domain::tokens::claim::{claim_from_text, service_audience, TokenClaim};
use crate::domain::tokens::email_verification::EmailVerificationToken;
use crate::error::AuthenticationError;
use crate::json::{decimal, pow10, push_decimal, MAX_DIGITS};
use crate::jwt::{spec_jwt_claims_text, spec_jwt_hs256_valid};
use crate::text::{chars_vec, string_from_chars};
use crate::uuid_text::{hyphenated, hyphenated_chars};
use vstd::string::StringExecFns;

verus! {

/// An email verification record. Times are nanoseconds since the Unix
/// epoch.
#[derive(Debug, Clone, PartialEq, Eq)]
pub struct EmailVerifications {
    /// Record id.
    pub id: RowID,
    /// The user whose email address is being verified (UUID bits).
    pub user_id: u128,
    /// The token sent to the user.
    pub token: EmailVerificationToken,
    /// When the record expires.
    pub expires_at: i128,
    /// Whether the token was used.
    pub is_used: bool,
    /// When the record was created.
    pub created_at: i128,
    /// When the record was last updated, if ever.
    pub updated_at: Option<i128>,
}

/// The range of times, in nanoseconds, that the time arithmetic of a record
/// is defined on (far wider than what `chrono` can hold).
pub open spec fn time_in_range(t: int) -> bool {
    -TIME_BOUND_NANOS <= t <= TIME_BOUND_NANOS
}

/// Bound on the times a record's time arithmetic is defined on.
pub const TIME_BOUND_NANOS: i128 = 1_000_000_000_000_000_000_000_000_000_000;

/// Whether a record is valid at a time, given what checking its token gave:
/// the token checked, neither the record nor the token's claims have
/// expired, and the token was not used.
pub open spec fn valid_at(v: EmailVerifications, checked: Result<TokenClaim, AuthenticationError>, now: int) -> bool {
    match checked {
        Ok(c) => v.expires_at > now && c.exp * NANOS_PER_SEC > now && !v.is_used,
        Err(_) => false,
    }
}

impl EmailVerifications {
    /// A new, unused record for a user's token, created now and expiring
    /// `duration_nanos` later, with a fresh id.
    pub fn new(user: &Users, token: &EmailVerificationToken, duration_nanos: i128) -> (r: Self)
        requires
            -MAX_DURATION_NANOS <= duration_nanos <= MAX_DURATION_NANOS,
        ensures
            uuid_version(r.id.0) == 7,
            r.user_id == user.id,
            r.token@ == token@,
            r.expires_at == r.created_at + duration_nanos,
            !r.is_used,
            r.updated_at is None,
            MIN_UTC_SECS * NANOS_PER_SEC <= r.created_at < (MAX_UTC_SECS + 2) * NANOS_PER_SEC,
    {
        let id = RowID::new();
        let now = now_nanos();
        EmailVerifications {
            id,
            user_id: user.id,
            token: EmailVerificationToken::from(String::from_str(token.as_str())),
            expires_at: now + duration_nanos,
            is_used: false,
            created_at: now,
            updated_at: None,
        }
    }

    /// Whether the record has expired at the given time (strictly after its
    /// expiry).
    pub fn is_expired_at(&self, now: i128) -> (r: bool)
        ensures
            r == (now > self.expires_at),
    {
        now > self.expires_at
    }

    /// Whether the record has expired now. The answer depends on the clock:
    /// it is `is_expired_at` at the time read.
    pub fn is_expired(&self) -> (r: bool)
        ensures
            r ==> self.expires_at < (MAX_UTC_SECS + 2) * NANOS_PER_SEC,
            !r ==> self.expires_at >= MIN_UTC_SECS * NANOS_PER_SEC,
    {
        let now = now_nanos();
        self.is_expired_at(now)
    }

    /// Whether the record is valid at the given time, given what checking
    /// its token gave (see `valid_at`).
    pub fn is_valid_at(&self, checked: &Result<TokenClaim, AuthenticationError>, now: i128) -> (r: bool)
        requires
            time_in_range(now as int),
        ensures
            r == valid_at(*self, *checked, now as int),
    {
        match checked {
            Ok(c) => {
                let exp_nanos = (c.exp as i128) * 1_000_000_000;
                self.expires_at > now && exp_nanos > now && !self.is_used
            },
            Err(_) => false,
        }
    }

    /// Whether the record is still valid now: its token checks with the
    /// secret, issuer and the service's audience (see `TokenClaim::parse`),
    /// neither the record nor
    /// the token's claims have expired, and it was not used.
    pub fn is_valid(&self, secret: &str, issuer: &str) -> (r: bool)
        ensures
            r ==> !self.is_used,
            r ==> self.expires_at >= MIN_UTC_SECS * NANOS_PER_SEC,
            r ==> (claim_from_text(spec_jwt_claims_text(self.token@)) matches Some(c) && c.iss == issuer@
                && c.aud == service_audience()),
            r ==> spec_jwt_hs256_valid(self.token@, secret@),
    {
        let checked = TokenClaim::parse(self.token.as_str(), secret, issuer);
        let now = now_nanos();
        self.is_valid_at(&checked, now)
    }

    /// The time left until the record expires, from the given time
    /// (negative once it has expired).
    pub fn time_until_expiry_at(&self, now: i128) -> (r: i128)
        requires
            time_in_range(self.expires_at as int),
            time_in_range(now as int),
        ensures
            r == self.expires_at - now,
    {
        self.expires_at - now
    }

    /// The time left until the record expires, from now.
    pub fn time_until_expiry(&self) -> (r: i128)
        requires
            time_in_range(self.expires_at as int),
        ensures
            self.expires_at - (MAX_UTC_SECS + 2) * NANOS_PER_SEC < r <= self.expires_at - MIN_UTC_SECS * NANOS_PER_SEC,
    {
        let now = now_nanos();
        self.time_until_expiry_at(now)
    }
}

/// The text of a boolean (`true` or `false`).
pub open spec fn bool_text(b: bool) -> Seq<char> {
    if b {
        "true"@
    } else {
        "false"@
    }
}

/// The text a record is displayed as: its id, its user, its expiry as
/// `chrono` writes it, and whether it was used.
pub open spec fn verification_display(v: EmailVerifications) -> Seq<char> {
    let since_min = v.expires_at - MIN_UTC_SECS * NANOS_PER_SEC;
    "EmailVerification(id: "@ + hyphenated(v.id.0) + ", user: "@ + hyphenated(v.user_id) + ", expires: "@
        + spec_utc_display(since_min / 1_000_000_000 + MIN_UTC_SECS, since_min % 1_000_000_000) + ", is_used: "@
        + bool_text(v.is_used) + ")"@
}

impl EmailVerifications {
    /// The record as displayed (see `verification_display`).
    pub fn to_string(&self) -> (r: String)
        requires
            MIN_UTC_SECS * NANOS_PER_SEC <= self.expires_at < (MAX_UTC_SECS + 1) * NANOS_PER_SEC,
        ensures
            r@ == verification_display(*self),
    {
        let since_min = (self.expires_at - (-8334601315200i128 * 1_000_000_000)) as u128;
        let secs = (since_min / 1_000_000_000) as i128 + (-8334601315200i128);
        let nanos = since_min % 1_000_000_000;
        let expires = utc_display(secs as i64, nanos as u32);
        let id = self.id.to_string();
        let user = string_from_chars(hyphenated_chars(self.user_id).as_slice());
        let used = if self.is_used {
            String::from_str("true")
        } else {
            String::from_str("false")
        };
        String::from_str("EmailVerification(id: ").concat(id.as_str()).concat(", user: ").concat(user.as_str()).concat(
            ", expires: ",
        ).concat(expires.as_str()).concat(", is_used: ").concat(used.as_str()).concat(")")
    }
}

/// The largest batch of records inserted in one transaction.
pub const MAX_BATCH_SIZE: usize = 1000;

/// The message of a batch above the limit.
pub open spec fn batch_too_large_message(len: int) -> Seq<char> {
    "Batch size "@ + decimal(len) + " exceeds limit of 1000"@
}

/// Checks the size of a batch of records before it is inserted: a batch of
/// more than `MAX_BATCH_SIZE` records is refused with a `ValidationError`
/// naming its size; any other batch, the empty one included (which inserts
/// nothing), is accepted.
pub fn check_batch_size(len: usize) -> (r: Result<(), AuthenticationError>)
    ensures
        len <= MAX_BATCH_SIZE ==> r is Ok,
        len > MAX_BATCH_SIZE ==> (r matches Err(AuthenticationError::ValidationError(m))
            && m@ == batch_too_large_message(len as int)),
{
    if len > MAX_BATCH_SIZE {
        let mut text = chars_vec("Batch size ");
        assert(pow10(MAX_DIGITS as nat) > 0xffff_ffff_ffff_ffff) by {
            reveal_with_fuel(pow10, 31);
        }
        push_decimal(len as i128, &mut text);
        let tail = chars_vec(" exceeds limit of 1000");
        let mut i: usize = 0;
        let ghost before = text@;
        while i < tail.len()
            invariant
                i <= tail@.len(),
                text@ == before + tail@.take(i as int),
            decreases tail@.len() - i,
        {
            text.push(tail[i]);
            i = i + 1;
            assert(tail@.take(i as int) =~= tail@.take(i - 1) + seq![tail@[i - 1]]);
        }
        assert(tail@.take(tail@.len() as int) =~= tail@);
        return Err(AuthenticationError::ValidationError(string_from_chars(text.as_slice())));
    }
    Ok(())
}

/// Converts a pagination value to the `i64` that the database takes:
/// `ValidationError("Pagination value too large")` when it does not fit.
pub fn safe_cast_to_i64(value: usize) -> (r: Result<i64, AuthenticationError>)
    ensures
        value <= i64::MAX ==> r == Ok::<i64, AuthenticationError>(value as i64),
        value > i64::MAX ==> (r matches Err(AuthenticationError::ValidationError(m))
            && m@ == "Pagination value too large"@),
{
    if (value as u64) <= 0x7fff_ffff_ffff_ffffu64 {
        Ok(value as i64)
    } else {
        Err(AuthenticationError::ValidationError(String::from_str("Pagination value too large")))
    }
}

/// The message of a cursor given in part.
pub open spec fn partial_cursor_message() -> Seq<char> {
    "Both cursor_created_at and cursor_id must be provided together"@
}

/// Checks the cursor of a cursor-paginated query: the creation time and
/// the id of the cursor must be given together or not at all. Any limit is
/// accepted (a limit above 1000 is only worth a warning).
pub fn validate_cursor_pagination(
    limit: usize,
    cursor_created_at: Option<i128>,
    cursor_id: Option<u128>,
) -> (r: Result<(), AuthenticationError>)
    ensures
        (cursor_created_at is Some) == (cursor_id is Some) ==> r is Ok,
        (cursor_created_at is Some) != (cursor_id is Some) ==> (r matches Err(
            AuthenticationError::ValidationError(m),
        ) && m@ == partial_cursor_message()),
{
    match (cursor_created_at, cursor_id) {
        (None, None) | (Some(_), Some(_)) => Ok(()),
        _ => Err(
            AuthenticationError::ValidationError(
                String::from_str("Both cursor_created_at and cursor_id must be provided together"),
            ),
        ),
    }
}

/// What an offset-paginated query is run with: the offset and the limit as
/// the `i64` values that the database takes.
pub fn page_bounds(limit: usize, offset: usize) -> (r: Result<(i64, i64), AuthenticationError>)
    ensures
        offset <= i64::MAX && limit <= i64::MAX ==> r == Ok::<(i64, i64), AuthenticationError>(
            (offset as i64, limit as i64),
        ),
        offset > i64::MAX || limit > i64::MAX ==> (r matches Err(AuthenticationError::ValidationError(m))
            && m@ == "Pagination value too large"@),
{
    let offset_i64 = safe_cast_to_i64(offset)?;
    let limit_i64 = safe_cast_to_i64(limit)?;
    Ok((offset_i64, limit_i64))
}

/// The page a cursor-paginated query asks for: the first page, or the rows
/// after a cursor (creation time in nanoseconds, and id), in ascending
/// order of creation time then id.
#[derive(Debug, Clone, Copy, PartialEq, Eq, Structural)]
pub enum CursorPage {
    First { limit: i64 },
    After { created_at: i128, id: u128, limit: i64 },
}

/// What a cursor-paginated query is run with: a cursor given in part is
/// refused (`validate_cursor_pagination`), a limit that does not fit an
/// `i64` too; otherwise the first page or the page after the cursor.
pub fn cursor_page(
    limit: usize,
    cursor_created_at: Option<i128>,
    cursor_id: Option<u128>,
) -> (r: Result<CursorPage, AuthenticationError>)
    ensures
        (cursor_created_at is Some) != (cursor_id is Some) ==> (r matches Err(
            AuthenticationError::ValidationError(m),
        ) && m@ == partial_cursor_message()),
        (cursor_created_at is Some) == (cursor_id is Some) && limit > i64::MAX ==> (r matches Err(
            AuthenticationError::ValidationError(m),
        ) && m@ == "Pagination value too large"@),
        cursor_created_at is None && cursor_id is None && limit <= i64::MAX ==> r == Ok::<
            CursorPage,
            AuthenticationError,
        >(CursorPage::First { limit: limit as i64 }),
        cursor_created_at is Some && cursor_id is Some && limit <= i64::MAX ==> r == Ok::<
            CursorPage,
            AuthenticationError,
        >(CursorPage::After { created_at: cursor_created_at->0, id: cursor_id->0, limit: limit as i64 }),
{
    validate_cursor_pagination(limit, cursor_created_at, cursor_id)?;
    let limit_i64 = safe_cast_to_i64(limit)?;
    match (cursor_created_at, cursor_id) {
        (Some(t), Some(i)) => Ok(CursorPage::After { created_at: t, id: i, limit: limit_i64 }),
        _ => Ok(CursorPage::First { limit: limit_i64 }),
    }
}

/// The creation time before which records count as older than an age,
/// measured from a time (nanoseconds).
pub open spec fn cutoff_at(older_than_nanos: int, now: int) -> int {
    now - older_than_nanos
}

/// The creation time before which records count as older than the given
/// age, measured from the given time (nanoseconds since the Unix epoch).
pub fn older_than_cutoff_at(older_than_nanos: i128, now: i128) -> (r: i128)
    requires
        -MAX_DURATION_NANOS <= older_than_nanos <= MAX_DURATION_NANOS,
        0 <= now < (MAX_UTC_SECS + 2) * NANOS_PER_SEC,
    ensures
        r == cutoff_at(older_than_nanos as int, now as int),
{
    now - older_than_nanos
}

/// A record is before the cutoff of an age, measured from a time, exactly
/// when it was created longer ago than that age; a longer age gives an
/// earlier cutoff, and the same age measured later gives a later one.
pub proof fn lemma_cutoff_selects_older(now: int, later: int, age: int, longer: int, created: int)
    requires
        now <= later,
        age <= longer,
    ensures
        (created < cutoff_at(age, now)) <==> (now - created > age),
        cutoff_at(longer, now) <= cutoff_at(age, now),
        cutoff_at(age, now) <= cutoff_at(age, later),
        cutoff_at(0, now) == now,
{
}

/// The creation time before which records count as older than the given
/// age, measured from now (`Utc::now() - older_than`).
pub fn older_than_cutoff(older_than_nanos: i128) -> (r: i128)
    requires
        -MAX_DURATION_NANOS <= older_than_nanos <= MAX_DURATION_NANOS,
    ensures
        MIN_UTC_SECS * NANOS_PER_SEC - older_than_nanos <= r < (MAX_UTC_SECS + 2) * NANOS_PER_SEC - older_than_nanos,
{
    let now = now_nanos();
    older_than_cutoff_at(older_than_nanos, now)
}

} // verus!
