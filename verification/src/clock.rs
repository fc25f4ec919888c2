//! The current time, and timestamps as nanoseconds since the Unix epoch.

use vstd::prelude::*;

verus! {

/// Earliest second that `chrono::DateTime<Utc>` can hold (`DateTime::MIN_UTC`).
pub const MIN_UTC_SECS: i64 = -8334601315200;

/// Latest second that `chrono::DateTime<Utc>` can hold (`DateTime::MAX_UTC`).
pub const MAX_UTC_SECS: i64 = 8210266876799;

/// Nanoseconds in a second.
pub const NANOS_PER_SEC: i128 = 1_000_000_000;

/// The longest span that `chrono::TimeDelta` can hold (`i64::MAX`
/// milliseconds), in nanoseconds.
pub const MAX_DURATION_NANOS: i128 = 9_223_372_036_854_775_807_000_000;

/// The current time from `chrono::Utc::now()`, as whole seconds since the
/// Unix epoch (`timestamp`) and the nanoseconds past that second
/// (`timestamp_subsec_nanos`). The value depends on the clock; the contract
/// states the ranges that chrono gives it: within a `DateTime<Utc>`, and
/// not before the Unix epoch (`Utc::now` panics on a system clock set
/// before 1970 rather than return such a time).
#[verifier::external_body]
pub fn utc_now() -> (r: (i64, u32))
    ensures
        0 <= r.0 <= MAX_UTC_SECS,
        r.1 < 2_000_000_000,
{
    let now = chrono::Utc::now();
    (now.timestamp(), now.timestamp_subsec_nanos())
}

/// What `chrono` writes for a `DateTime<Utc>` (its `Display`) given as
/// whole seconds and nanoseconds since the Unix epoch: the date and time in
/// UTC, with the fraction of a second when there is one, then `UTC`.
pub uninterp spec fn spec_utc_display(secs: int, nanos: int) -> Seq<char>;

/// `chrono::DateTime::<Utc>::from_timestamp(secs, nanos)` written with its
/// `Display`; within the range that `DateTime<Utc>` holds the time always
/// exists.
#[verifier::external_body]
pub fn utc_display(secs: i64, nanos: u32) -> (r: String)
    requires
        MIN_UTC_SECS <= secs <= MAX_UTC_SECS,
        nanos < 1_000_000_000,
    ensures
        r@ == spec_utc_display(secs as int, nanos as int),
{
    match chrono::DateTime::from_timestamp(secs, nanos) {
        Some(t) => t.to_string(),
        None => String::new(),
    }
}

/// The current time in nanoseconds since the Unix epoch.
pub fn now_nanos() -> (r: i128)
    ensures
        0 <= r < (MAX_UTC_SECS + 2) * NANOS_PER_SEC,
{
    let (s, n) = utc_now();
    (s as i128) * 1_000_000_000 + (n as i128)
}

/// The current time in whole seconds (the sub-second part dropped).
pub fn now_seconds() -> (r: i64)
    ensures
        0 <= r <= MAX_UTC_SECS,
{
    let (s, _n) = utc_now();
    s
}

/// A time rounded to the nearest whole second, halves rounded up, as
/// `chrono`'s `round_subsecs(0)` rounds.
pub open spec fn rounded_second(secs: int, nanos: int) -> int {
    if nanos % 1_000_000_000 >= 500_000_000 {
        secs + nanos / 1_000_000_000 + 1
    } else {
        secs + nanos / 1_000_000_000
    }
}

/// Rounding a time to the nearest second lands on a whole second at most
/// half a second from it (a time exactly half-way is rounded up).
pub proof fn lemma_rounded_second_nearest(secs: int, nanos: int)
    requires
        0 <= nanos,
    ensures
        -500_000_000 < rounded_second(secs, nanos) * 1_000_000_000 - (secs * 1_000_000_000 + nanos) <= 500_000_000,
{
    let q = nanos / 1_000_000_000;
    let f = nanos % 1_000_000_000;
    assert(nanos == q * 1_000_000_000 + f);
    assert(rounded_second(secs, nanos) * 1_000_000_000 == (secs + q) * 1_000_000_000 + (if f >= 500_000_000 {
        1_000_000_000int
    } else {
        0int
    }));
}

/// Rounding to the nearest second keeps the order of times: a later time
/// is never rounded to an earlier second.
pub proof fn lemma_rounded_second_monotone(secs: int, nanos: int, secs2: int, nanos2: int)
    requires
        0 <= nanos,
        0 <= nanos2,
        secs * 1_000_000_000 + nanos <= secs2 * 1_000_000_000 + nanos2,
    ensures
        rounded_second(secs, nanos) <= rounded_second(secs2, nanos2),
{
    lemma_rounded_second_nearest(secs, nanos);
    lemma_rounded_second_nearest(secs2, nanos2);
    let a = rounded_second(secs, nanos);
    let b = rounded_second(secs2, nanos2);
    if a > b {
        assert(a * 1_000_000_000 >= b * 1_000_000_000 + 1_000_000_000);
        let t1 = secs * 1_000_000_000 + nanos;
        let t2 = secs2 * 1_000_000_000 + nanos2;
        // a·10⁹ ≤ t1 + 5·10⁸ and b·10⁹ > t2 − 5·10⁸, so a·10⁹ − b·10⁹ < 10⁹ + t1 − t2 ≤ 10⁹.
        if t1 == t2 {
            assert(a * 1_000_000_000 - t1 <= 500_000_000);
            assert(b * 1_000_000_000 - t2 > -500_000_000);
        }
    }
}

/// Rounds a time given as seconds and nanoseconds to the nearest second.
pub fn round_to_second(secs: i64, nanos: u32) -> (r: i64)
    requires
        MIN_UTC_SECS <= secs <= MAX_UTC_SECS,
        nanos < 2_000_000_000,
    ensures
        r == rounded_second(secs as int, nanos as int),
{
    let whole = (nanos / 1_000_000_000) as i64;
    let frac = nanos % 1_000_000_000;
    if frac >= 500_000_000 {
        secs + whole + 1
    } else {
        secs + whole
    }
}

/// The current time rounded to the nearest whole second.
pub fn now_rounded_seconds() -> (r: i64)
    ensures
        0 <= r <= MAX_UTC_SECS + 2,
{
    let (s, n) = utc_now();
    round_to_second(s, n)
}

/// The current time rounded to the nearest whole second, in nanoseconds
/// since the Unix epoch (`Utc::now().round_subsecs(0)`).
pub fn now_rounded_nanos() -> (r: i128)
    ensures
        r % NANOS_PER_SEC == 0,
        0 <= r <= (MAX_UTC_SECS + 2) * NANOS_PER_SEC,
{
    let s = now_rounded_seconds();
    (s as i128) * 1_000_000_000
}

} // verus!
