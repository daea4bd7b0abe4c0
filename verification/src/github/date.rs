//! Dates as GitHub reads them.
use chrono::{DateTime, SecondsFormat};
use vstd::prelude::*;
use vstd::string::*;

verus! {

/// The first second that has a date, counted from the start of 1970.
pub const FIRST_SECOND: i64 = -8334601228800;

/// The last second that has a date, counted from the start of 1970.
pub const LAST_SECOND: i64 = 8210266876799;

/// The second `seconds` in the notation of RFC 3339, in UTC.
pub uninterp spec fn rfc3339(seconds: i64) -> Seq<char>;

/// `chrono::DateTime::to_rfc3339_opts` writes the date and time of a second,
/// counted from the start of 1970, without fractions and with `Z` for UTC.
/// What it writes depends on the second alone.
#[verifier::external_body]
fn write_rfc3339(seconds: i64) -> (r: String)
    requires
        FIRST_SECOND <= seconds <= LAST_SECOND,
    ensures
        r@ == rfc3339(seconds),
{
    DateTime::from_timestamp(seconds, 0).unwrap().to_rfc3339_opts(SecondsFormat::Secs, true)
}

/// Whether there is a date `days` days before the second `now`.
pub open spec fn has_date_before(now: i64, days: u32) -> bool {
    now <= LAST_SECOND && FIRST_SECOND <= now - days * 86400
}

/// The date and time `days` days before the second `now`.
pub open spec fn date_before(now: i64, days: u32) -> Seq<char> {
    rfc3339((now - days * 86400) as i64)
}

/// Writes the date and time `days` days before the second `now`.
pub fn days_before(now: i64, days: u32) -> (r: String)
    requires
        has_date_before(now, days),
    ensures
        r@ == date_before(now, days),
{
    write_rfc3339(now - days as i64 * 86400)
}

/// Each further day goes back by exactly the seconds of a day: a day more
/// before one second is the same number of days before the second a day
/// earlier.
pub proof fn each_day_goes_back_by_a_day(now: i64, days: u32)
    requires
        days < u32::MAX,
        has_date_before(now, (days + 1) as u32),
    ensures
        has_date_before((now - 24 * 60 * 60) as i64, days),
        has_date_before(now, days),
        date_before(now, (days + 1) as u32) == date_before((now - 24 * 60 * 60) as i64, days),
{
}

/// No day before a second is the second itself.
pub proof fn no_day_goes_back_by_nothing(now: i64)
    requires
        FIRST_SECOND <= now <= LAST_SECOND,
    ensures
        has_date_before(now, 0),
        date_before(now, 0) == rfc3339(now),
{
}

/// The days before a second can be counted in two goes, and what comes last
/// names the second that the date is of.
pub proof fn days_add_up(now: i64, some: u32, more: u32)
    requires
        some + more <= u32::MAX,
        has_date_before(now, (some + more) as u32),
    ensures
        has_date_before((now - some * 86400) as i64, more),
        date_before(now, (some + more) as u32) == date_before((now - some * 86400) as i64, more),
        date_before(now, (some + more) as u32) == rfc3339((now - (some + more) * 24 * 3600) as i64),
{
    assert((some + more) * 86400 == some * 86400 + more * 86400) by (nonlinear_arith);
}

} // verus!
