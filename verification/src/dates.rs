//! Calendar conversions, delegated to chrono.

use chrono::Datelike;
use vstd::prelude::*;

verus! {

/// Largest count of days after 1970-01-01 that the calendar conversion
/// accepts; it stays well below chrono's maximum representable date.
pub const MAX_EPOCH_DAYS: u64 = 90_000_000;

/// Largest Unix timestamp accepted for RFC 2822 rendering
/// (9999-12-31T23:59:59Z); chrono cannot render a five-digit year there.
pub const MAX_RFC2822_SECS: i64 = 253_402_300_799;

/// The (year, month, day) of the civil date `days` days after 1970-01-01
/// in the proleptic Gregorian calendar, as chrono computes it.
pub uninterp spec fn civil_of_days(days: int) -> (int, int, int);

/// The RFC 2822 rendering chrono gives to the UTC time `secs` seconds
/// after the Unix epoch, e.g. `Thu, 1 Jan 1970 00:00:00 +0000`.
pub uninterp spec fn rfc2822_of(secs: int) -> Seq<char>;

/// Relies on chrono's `NaiveDate`: 1970-01-01 moved forward by `days`
/// whole days, read back as calendar year, month and day. The bound on
/// `days` keeps the sum inside chrono's representable dates, so the
/// unwraps cannot fail.
#[verifier::external_body]
pub(crate) fn civil_from_days(days: u64) -> (r: (i32, u32, u32))
    requires
        days <= MAX_EPOCH_DAYS,
    ensures
        (r.0 as int, r.1 as int, r.2 as int) == civil_of_days(days as int),
        1970 <= r.0,
        1 <= r.1 <= 12,
        1 <= r.2 <= 31,
{
    let epoch = chrono::NaiveDate::from_ymd_opt(1970, 1, 1).unwrap();
    let date = epoch.checked_add_signed(chrono::TimeDelta::days(days as i64)).unwrap();
    (date.year(), date.month(), date.day())
}

/// Relies on chrono's `DateTime::from_timestamp` and `to_rfc2822`: the
/// RFC 2822 form of the UTC time `secs` seconds after the Unix epoch.
/// The bounds keep the timestamp valid and its year at four digits, the
/// ranges on which neither call panics.
#[verifier::external_body]
pub(crate) fn rfc2822_from_secs(secs: i64) -> (r: String)
    requires
        0 <= secs <= MAX_RFC2822_SECS,
    ensures
        r@ == rfc2822_of(secs as int),
{
    chrono::DateTime::<chrono::Utc>::from_timestamp(secs, 0).unwrap().to_rfc2822()
}

} // verus!
