//! Calendar dates for naming dumps. A PE capture carries its build timestamp
//! and is dated by it; an ELF capture carries none and is dated by the
//! wall clock at capture time. The conversions come from the `chrono` crate
//! and are the only outside calls the library makes.

use vstd::prelude::*;

use chrono::Datelike;

verus! {

/// The proleptic-Gregorian calendar date, in UTC, of a moment given in
/// seconds since the Unix epoch: year, month and day. Computed by `chrono`;
/// it depends on the seconds value alone.
pub uninterp spec fn civil_of_unix(secs: u64) -> (u64, u64, u64);

/// Relies on chrono's `DateTime::from_timestamp` and `Datelike`: every
/// 32-bit seconds value lies in chrono's representable range, the civil date
/// is a function of the seconds alone, and `Datelike` documents the month in
/// `1..=12` and the day in `1..=31`.
#[verifier::external_body]
pub fn civil_from_unix(secs: u32) -> (r: (u64, u64, u64))
    ensures
        r == civil_of_unix(secs as u64),
        1 <= r.1 <= 12,
        1 <= r.2 <= 31,
{
    let dt = chrono::DateTime::from_timestamp(secs as i64, 0).unwrap();
    (dt.year() as u64, dt.month() as u64, dt.day() as u64)
}

/// Relies on the system clock and chrono's `DateTime::from_timestamp` and
/// `Datelike`: the result is the current civil date in UTC, about which
/// nothing is promised beyond `Datelike`'s documented month range `1..=12`
/// and day range `1..=31`. A clock before the epoch or beyond chrono's range
/// falls back to the epoch date rather than panicking.
#[verifier::external_body]
pub fn today_utc() -> (r: (u64, u64, u64))
    ensures
        1 <= r.1 <= 12,
        1 <= r.2 <= 31,
{
    let secs: u64 = match std::time::SystemTime::now().duration_since(std::time::UNIX_EPOCH) {
        Ok(elapsed) => elapsed.as_secs(),
        Err(_) => 0,
    };
    let secs: i64 = if secs > i64::MAX as u64 {
        i64::MAX
    } else {
        secs as i64
    };
    match chrono::DateTime::from_timestamp(secs, 0) {
        Some(now) => (now.year() as u64, now.month() as u64, now.day() as u64),
        None => (1970, 1, 1),
    }
}

} // verus!
