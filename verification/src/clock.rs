//! Time zones, wall-clock time and cron schedules, all from outside crates.

use chrono::TimeZone;
use std::str::FromStr;
use vstd::prelude::*;

verus! {

/// Whether `name` is an IANA time zone in chrono-tz's table.
pub uninterp spec fn iana_zone_known(name: Seq<char>) -> bool;

/// `name.parse::<chrono_tz::Tz>()` succeeds: a lookup in chrono-tz's fixed
/// zone table, so the answer depends on the name alone.
#[verifier::external_body]
pub(crate) fn zone_is_known(name: &str) -> (r: bool)
    ensures
        r == iana_zone_known(name@),
{
    name.parse::<chrono_tz::Tz>().is_ok()
}

/// The wall-clock text (`%Y-%m-%d %H:%M:%S`) of a Unix timestamp in a
/// chrono-tz zone, `None` when the name is not a zone or the timestamp is out
/// of chrono's range.
pub uninterp spec fn zone_time_text(timestamp: i64, zone: Seq<char>) -> Option<Seq<char>>;

/// `Utc.timestamp_opt(timestamp, 0).single()` shown in the zone `zone`
/// parses to, formatted as `%Y-%m-%d %H:%M:%S`; the zone table and the
/// calendar are fixed, so the text depends on the arguments alone.
#[verifier::external_body]
pub(crate) fn format_in_zone(timestamp: i64, zone: &str) -> (r: Option<String>)
    ensures
        match r {
            Some(s) => zone_time_text(timestamp, zone@) == Some(s@),
            None => zone_time_text(timestamp, zone@) is None,
        },
{
    let tz = zone.parse::<chrono_tz::Tz>().ok()?;
    chrono::Utc.timestamp_opt(timestamp, 0).single().map(
        |dt| dt.with_timezone(&tz).format("%Y-%m-%d %H:%M:%S").to_string(),
    )
}

/// The current Unix time in seconds (`Utc::now().timestamp()`); nothing is
/// known of the value.
#[verifier::external_body]
pub(crate) fn unix_now() -> (r: i64) {
    chrono::Utc::now().timestamp()
}

/// Whether `cron` parses as a cron schedule (the cron crate's syntax).
pub uninterp spec fn cron_parses(expression: Seq<char>) -> bool;

/// `cron::Schedule::from_str(expression).is_ok()`.
#[verifier::external_body]
pub(crate) fn cron_is_valid(expression: &str) -> (r: bool)
    ensures
        r == cron_parses(expression@),
{
    cron::Schedule::from_str(expression).is_ok()
}

/// The first second (Unix time) chrono represents: -262143-01-01 00:00:00 UTC.
pub const MIN_UTC_SECS: i64 = -8334601228800;

/// The last second (Unix time) chrono represents: +262142-12-31 23:59:59 UTC.
pub const MAX_UTC_SECS: i64 = 8210266876799;

/// Whether `Utc.timestamp_opt(secs, 0)` names one instant: `secs` lies in
/// chrono's range.
pub open spec fn utc_timestamp_valid(secs: i64) -> bool {
    MIN_UTC_SECS <= secs <= MAX_UTC_SECS
}

/// `Utc.timestamp_opt(secs, 0).single().is_some()`: chrono's
/// `DateTime::from_timestamp` turns the seconds into a day number and a
/// second of that day, and accepts exactly the days whose year lies between
/// -262143 and 262142.
#[verifier::external_body]
pub(crate) fn utc_timestamp_ok(secs: i64) -> (r: bool)
    ensures
        r == utc_timestamp_valid(secs),
{
    chrono::Utc.timestamp_opt(secs, 0).single().is_some()
}

/// The first moment (Unix seconds) strictly after `since` at which the cron
/// schedule fires, counted in the zone `zone`; `None` when the expression
/// or the zone does not parse, `since` is out of range, or nothing follows.
pub uninterp spec fn cron_next_after(expression: Seq<char>, zone: Seq<char>, since: i64) -> Option<i64>;

/// `Schedule::from_str(expression)?.after(&since_in_zone).next()`: the
/// schedule is evaluated on the zone's calendar, so the answer depends on the
/// arguments alone. The cron crate starts its search one second after
/// `since` with chrono's panicking `+`, so `since` must not be chrono's last
/// second.
#[verifier::external_body]
pub(crate) fn next_fire_after(expression: &str, zone: &str, since: i64) -> (r: Option<i64>)
    requires
        since != MAX_UTC_SECS,
    ensures
        r == cron_next_after(expression@, zone@, since),
{
    let schedule = cron::Schedule::from_str(expression).ok()?;
    let tz = zone.parse::<chrono_tz::Tz>().ok()?;
    let start = chrono::Utc.timestamp_opt(since, 0).single()?.with_timezone(&tz);
    schedule.after(&start).next().map(|next| next.timestamp())
}

} // verus!
