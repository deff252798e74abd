//! Instants as milliseconds since the Unix epoch, and their calendar views.
//!
//! Parsing and formatting timestamps, and looking up a time zone, are done
//! by `chrono` and `chrono-tz`; the results of those calls are named below.
//! Day arithmetic in UTC is plain integer arithmetic.
use vstd::prelude::*;
use crate::json::{Json, JsonV};
use chrono::{Datelike, TimeZone};

verus! {

broadcast use vstd::string::group_string_axioms;

pub const HOUR: i64 = 3_600_000;

pub const DAY: i64 = 86_400_000;

/// Earliest and latest instants `chrono` can represent (years -262143 and 262142).
pub const MIN_MS: i64 = -8_334_601_315_200_000;

pub const MAX_MS: i64 = 8_210_266_876_799_999;

pub open spec fn in_chrono_range(ms: int) -> bool {
    MIN_MS <= ms <= MAX_MS
}

/// Instants a parsed timestamp can denote: `chrono`'s range, and up to a
/// second beyond its end (a leap second on its last day).
pub open spec fn parsed_range(ms: int) -> bool {
    MIN_MS <= ms <= MAX_MS + 1_000
}

/// Instants the derivation accepts as "now": any `i64` at least 2^53 ms away
/// from the ends of its range, so that `now` minus any instant `chrono` can
/// parse, or `now` plus a few weeks, is still an `i64`.
pub open spec fn time_ok(ms: int) -> bool {
    i64::MIN + 0x20_0000_0000_0000 <= ms <= i64::MAX - 0x20_0000_0000_0000
}

/// Start of the UTC day holding `ms` (the instant itself outside `chrono`'s range).
pub open spec fn utc_midnight(ms: int) -> int {
    if in_chrono_range(ms) {
        (ms / (DAY as int)) * (DAY as int)
    } else {
        ms
    }
}

/// UTC weekday of `ms`, 0 = Sunday (0 outside `chrono`'s range). 1970-01-01 was a Thursday.
pub open spec fn utc_weekday(ms: int) -> int {
    if in_chrono_range(ms) {
        ((ms / (DAY as int)) + 4) % 7
    } else {
        0
    }
}

fn floor_day(ms: i64) -> (r: i64)
    ensures
        r as int == ms as int / (DAY as int),
{
    if ms >= 0 {
        ms / DAY
    } else {
        let a: u64 = (0i128 - ms as i128) as u64;
        let q: u64 = (a + (DAY as u64) - 1) / (DAY as u64);
        proof {
            let d = DAY as int;
            let t = (a + (DAY as u64) - 1) as int;
            vstd::arithmetic::div_mod::lemma_fundamental_div_mod(t, d);
            vstd::arithmetic::div_mod::lemma_mod_pos_bound(t, d);
            let rr = t % d;
            assert(ms as int == (-(q as int)) * d + (d - 1 - rr)) by (nonlinear_arith)
                requires
                    ms as int == -(a as int),
                    t == (a as int) + d - 1,
                    t == d * (q as int) + rr,
            ;
            vstd::arithmetic::div_mod::lemma_fundamental_div_mod_converse(ms as int, d, -(q as int), d - 1 - rr);
        }
        0 - (q as i64)
    }
}

/// Start of the UTC day holding `ms`.
pub fn utc_midnight_exec(ms: i64) -> (r: i64)
    ensures
        r as int == utc_midnight(ms as int),
{
    if ms < MIN_MS || ms > MAX_MS {
        return ms;
    }
    let d = floor_day(ms);
    proof {
        assert(d * DAY <= ms) by (nonlinear_arith)
            requires
                d as int == ms as int / (DAY as int),
        ;
        assert(d * DAY > ms - DAY) by (nonlinear_arith)
            requires
                d as int == ms as int / (DAY as int),
        ;
    }
    d * DAY
}

/// UTC weekday of `ms`, 0 = Sunday.
pub fn utc_weekday_exec(ms: i64) -> (r: u32)
    ensures
        r as int == utc_weekday(ms as int),
        r < 7,
{
    if ms < MIN_MS || ms > MAX_MS {
        return 0;
    }
    let d = floor_day(ms);
    let w = d + 4;
    let m = if w >= 0 {
        w % 7
    } else {
        let a: i64 = (0 - w) % 7;
        if a == 0 {
            0
        } else {
            7 - a
        }
    };
    proof {
        if w < 0 {
            let a = (-(w as int)) % 7;
            vstd::arithmetic::div_mod::lemma_fundamental_div_mod(-(w as int), 7);
            let q = (-(w as int)) / 7;
            if a == 0 {
                vstd::arithmetic::div_mod::lemma_fundamental_div_mod_converse(w as int, 7, -q, 0);
            } else {
                vstd::arithmetic::div_mod::lemma_fundamental_div_mod_converse(w as int, 7, -q - 1, 7 - a);
            }
        }
    }
    m as u32
}

/// The instant `s` denotes as `chrono`'s RFC 3339 parser reads it.
pub uninterp spec fn rfc3339_ms(s: Seq<char>) -> Option<i64>;

/// The instant `s` denotes as `chrono` reads it with format `fmt` and an explicit UTC offset.
pub uninterp spec fn offset_datetime_ms(s: Seq<char>, fmt: Seq<char>) -> Option<i64>;

/// The instant `s` denotes as `chrono` reads it as a naive date-time in UTC with format `fmt`.
pub uninterp spec fn naive_datetime_ms(s: Seq<char>, fmt: Seq<char>) -> Option<i64>;

/// Midnight UTC of the calendar date `s` as `chrono` reads it with format `fmt`.
pub uninterp spec fn naive_date_ms(s: Seq<char>, fmt: Seq<char>) -> Option<i64>;

/// `chrono`'s `%Y-%m-%dT%H:%M:%S%.3fZ` rendering of the instant `ms` (empty outside its range).
pub uninterp spec fn iso_text(ms: i64) -> Seq<char>;

/// Instants from year 0 to year 9999, which `chrono` renders with four-digit years.
pub open spec fn four_digit_year(ms: int) -> bool {
    -62_167_219_200_000 <= ms <= 253_402_300_799_999
}

/// `chrono::DateTime::parse_from_rfc3339(s)`, as milliseconds since the epoch.
///
/// The contract names the result, and states that an instant `chrono` returns lies in its
/// range (a leap second at the range's very end reaches a second beyond it).
#[verifier::external_body]
fn chrono_rfc3339(s: &str) -> (r: Option<i64>)
    ensures
        r == rfc3339_ms(s@),
        r matches Some(t) ==> parsed_range(t as int),
{
    chrono::DateTime::parse_from_rfc3339(s).ok().map(|d| d.timestamp_millis())
}

/// `chrono::DateTime::parse_from_str(s, fmt)` (a format holding an offset), in milliseconds.
///
/// The contract names the result, and states that an instant `chrono` returns lies in its
/// range (a leap second at the range's very end reaches a second beyond it).
#[verifier::external_body]
fn chrono_offset_datetime(s: &str, fmt: &str) -> (r: Option<i64>)
    ensures
        r == offset_datetime_ms(s@, fmt@),
        r matches Some(t) ==> parsed_range(t as int),
{
    chrono::DateTime::parse_from_str(s, fmt).ok().map(|d| d.timestamp_millis())
}

/// `chrono::NaiveDateTime::parse_from_str(s, fmt)` read as UTC, in milliseconds.
///
/// The contract names the result, and states that an instant `chrono` returns lies in its
/// range (a leap second at the range's very end reaches a second beyond it).
#[verifier::external_body]
fn chrono_naive_datetime(s: &str, fmt: &str) -> (r: Option<i64>)
    ensures
        r == naive_datetime_ms(s@, fmt@),
        r matches Some(t) ==> parsed_range(t as int),
{
    chrono::NaiveDateTime::parse_from_str(s, fmt).ok().map(|n| n.and_utc().timestamp_millis())
}

/// `chrono::NaiveDate::parse_from_str(s, fmt)` at midnight UTC, in milliseconds.
///
/// The contract names the result, and states that an instant `chrono` returns lies in its
/// range (a leap second at the range's very end reaches a second beyond it).
#[verifier::external_body]
fn chrono_naive_date(s: &str, fmt: &str) -> (r: Option<i64>)
    ensures
        r == naive_date_ms(s@, fmt@),
        r matches Some(t) ==> parsed_range(t as int),
{
    chrono::NaiveDate::parse_from_str(s, fmt)
        .ok()
        .and_then(|d| d.and_hms_opt(0, 0, 0))
        .map(|n| n.and_utc().timestamp_millis())
}

/// Text shaped `DDDD-DD-DDTDD:DD:DD.DDDZ`, each `D` an ASCII digit.
pub open spec fn iso_shaped(s: Seq<char>) -> bool {
    &&& s.len() == 24
    &&& forall|i: int|
        0 <= i < 24 ==> (if i == 4 || i == 7 {
            #[trigger] s[i] == '-'
        } else if i == 10 {
            s[i] == 'T'
        } else if i == 13 || i == 16 {
            s[i] == ':'
        } else if i == 19 {
            s[i] == '.'
        } else if i == 23 {
            s[i] == 'Z'
        } else {
            '0' <= s[i] <= '9'
        })
}

/// `chrono`'s rendering of `Utc.timestamp_millis_opt(ms)` with `%Y-%m-%dT%H:%M:%S%.3fZ`.
///
/// The contract names the result, and states what `chrono` documents of it:
/// an instant from year 0 to 9999 is rendered with a four-digit year, two-digit
/// fields and three-digit milliseconds, as RFC 3339 text that its RFC 3339
/// parser reads back as the same instant; outside `chrono`'s range there is no
/// instant and the text is empty. Which date and time the digits spell is
/// `chrono`'s calendar computation, left to the name.
#[verifier::external_body]
fn chrono_iso(ms: i64) -> (r: String)
    ensures
        r@ == iso_text(ms),
        four_digit_year(ms as int) ==> rfc3339_ms(r@) == Some(ms),
        four_digit_year(ms as int) ==> iso_shaped(r@),
        !in_chrono_range(ms as int) ==> r@.len() == 0,
{
    chrono::Utc.timestamp_millis_opt(ms)
        .single()
        .map(|d| d.format("%Y-%m-%dT%H:%M:%S%.3fZ").to_string())
        .unwrap_or_default()
}

/// How a timestamp text is read: RFC 3339 first, then a few looser ISO 8601
/// shapes (minute precision, `+0800`-style offsets, no offset meaning UTC,
/// a bare date meaning its UTC midnight).
pub open spec fn parse_iso(s: Seq<char>) -> Option<i64> {
    if rfc3339_ms(s) is Some {
        rfc3339_ms(s)
    } else if offset_datetime_ms(s, "%Y-%m-%dT%H:%M:%S%.f%#z"@) is Some {
        offset_datetime_ms(s, "%Y-%m-%dT%H:%M:%S%.f%#z"@)
    } else if offset_datetime_ms(s, "%Y-%m-%dT%H:%M%#z"@) is Some {
        offset_datetime_ms(s, "%Y-%m-%dT%H:%M%#z"@)
    } else if naive_datetime_ms(s, "%Y-%m-%dT%H:%M:%S%.f"@) is Some {
        naive_datetime_ms(s, "%Y-%m-%dT%H:%M:%S%.f"@)
    } else if naive_datetime_ms(s, "%Y-%m-%d %H:%M:%S"@) is Some {
        naive_datetime_ms(s, "%Y-%m-%d %H:%M:%S"@)
    } else if naive_datetime_ms(s, "%Y-%m-%dT%H:%MZ"@) is Some {
        naive_datetime_ms(s, "%Y-%m-%dT%H:%MZ"@)
    } else if naive_datetime_ms(s, "%Y-%m-%dT%H:%M"@) is Some {
        naive_datetime_ms(s, "%Y-%m-%dT%H:%M"@)
    } else {
        naive_date_ms(s, "%Y-%m-%d"@)
    }
}

/// Reads a timestamp text as milliseconds since the epoch.
pub fn parse_iso_pub(s: &str) -> (r: Option<i64>)
    ensures
        r == parse_iso(s@),
        r matches Some(t) ==> parsed_range(t as int),
{
    let r = chrono_rfc3339(s);
    if r.is_some() {
        return r;
    }
    let r = chrono_offset_datetime(s, "%Y-%m-%dT%H:%M:%S%.f%#z");
    if r.is_some() {
        return r;
    }
    let r = chrono_offset_datetime(s, "%Y-%m-%dT%H:%M%#z");
    if r.is_some() {
        return r;
    }
    let r = chrono_naive_datetime(s, "%Y-%m-%dT%H:%M:%S%.f");
    if r.is_some() {
        return r;
    }
    let r = chrono_naive_datetime(s, "%Y-%m-%d %H:%M:%S");
    if r.is_some() {
        return r;
    }
    let r = chrono_naive_datetime(s, "%Y-%m-%dT%H:%MZ");
    if r.is_some() {
        return r;
    }
    let r = chrono_naive_datetime(s, "%Y-%m-%dT%H:%M");
    if r.is_some() {
        return r;
    }
    chrono_naive_date(s, "%Y-%m-%d")
}

/// Renders an instant as `YYYY-MM-DDTHH:MM:SS.mmmZ`.
pub fn iso_pub(ms: i64) -> (r: String)
    ensures
        r@ == iso_text(ms),
        four_digit_year(ms as int) ==> parse_iso(r@) == Some(ms),
        four_digit_year(ms as int) ==> iso_shaped(r@),
        !in_chrono_range(ms as int) ==> r@.len() == 0,
{
    chrono_iso(ms)
}

/// A JSON value read as a timestamp: only strings are read (JavaScript's `Date.parse`).
pub open spec fn parse_ms(v: Option<JsonV>) -> Option<i64> {
    match v {
        Some(JsonV::Str(s)) => parse_iso(s),
        _ => None,
    }
}

pub fn parse_ms_exec(v: Option<&Json>) -> (r: Option<i64>)
    ensures
        r == parse_ms(crate::json::opt_view(v)),
        r matches Some(t) ==> parsed_range(t as int),
{
    match v {
        Some(j) => match j.as_str() {
            Some(s) => parse_iso_pub(s),
            None => None,
        },
        None => None,
    }
}

/// A local calendar date: year, month, day and weekday (0 = Sunday).
pub type LocalDay = (i32, u32, u32, u32);

/// The local date and weekday of instant `ms` in the IANA zone `zone`, as
/// `chrono-tz` computes them (`None` for an unknown zone or an instant out of range).
pub uninterp spec fn zone_day(ms: i64, zone: Seq<char>) -> Option<LocalDay>;

/// Midnight UTC of the calendar date `y-m-d`, as `chrono` computes it (`None` for no such date).
pub uninterp spec fn ymd_utc_ms(y: i32, m: u32, d: u32) -> Option<i64>;

/// `zone.parse::<chrono_tz::Tz>()` and `Utc.timestamp_millis_opt(ms).with_timezone(&tz)`:
/// the local date and weekday.
///
/// The contract names the result, and states that a weekday is below 7
/// (`num_days_from_sunday` counts 0 to 6).
#[verifier::external_body]
pub(crate) fn chrono_zone_day(ms: i64, zone: &str) -> (r: Option<LocalDay>)
    ensures
        r == zone_day(ms, zone@),
        r matches Some(d) ==> d.3 < 7,
{
    let tz: chrono_tz::Tz = zone.parse().ok()?;
    let dt = chrono::Utc.timestamp_millis_opt(ms).single()?.with_timezone(&tz);
    Some((dt.year(), dt.month(), dt.day(), dt.weekday().num_days_from_sunday()))
}

/// `Utc.with_ymd_and_hms(y, m, d, 0, 0, 0)` in milliseconds.
///
/// The contract names the result, and states what `chrono` documents of it:
/// it is a UTC midnight, and a date of years 0 to 9999 lies in those years.
#[verifier::external_body]
fn chrono_ymd_utc(y: i32, m: u32, d: u32) -> (r: Option<i64>)
    ensures
        r == ymd_utc_ms(y, m, d),
        r matches Some(t) ==> (t as int) % (DAY as int) == 0 && in_chrono_range(t as int),
        r matches Some(t) ==> (0 <= y <= 9999 ==> four_digit_year(t as int)),
{
    chrono::Utc.with_ymd_and_hms(y, m, d, 0, 0, 0).single().map(|t| t.timestamp_millis())
}

/// The local day of `ms` in `zone`, as the four-digit `%Y-%m-%d` rendering
/// reads back: dates outside years 0 to 9999 count as unavailable.
pub open spec fn local_day(ms: i64, zone: Seq<char>) -> Option<LocalDay> {
    match zone_day(ms, zone) {
        Some(d) => if 0 <= d.0 <= 9999 {
            Some(d)
        } else {
            None
        },
        None => None,
    }
}

pub fn local_day_exec(ms: i64, zone: &str) -> (r: Option<LocalDay>)
    ensures
        r == local_day(ms, zone@),
        r matches Some(d) ==> d.3 < 7,
{
    match chrono_zone_day(ms, zone) {
        Some(d) => if 0 <= d.0 && d.0 <= 9999 {
            Some(d)
        } else {
            None
        },
        None => None,
    }
}

/// Midnight UTC of the calendar date with the same year, month and day as
/// `ms` has in `zone` (`None` where that date is unavailable).
pub open spec fn zone_date_as_utc(ms: i64, zone: Seq<char>) -> Option<i64> {
    match local_day(ms, zone) {
        Some(d) => ymd_utc_ms(d.0, d.1, d.2),
        None => None,
    }
}

pub fn zone_date_as_utc_exec(ms: i64, zone: &str) -> (r: Option<i64>)
    ensures
        r == zone_date_as_utc(ms, zone@),
        r matches Some(t) ==> (t as int) % (DAY as int) == 0 && four_digit_year(t as int),
{
    match local_day_exec(ms, zone) {
        Some(d) => chrono_ymd_utc(d.0, d.1, d.2),
        None => None,
    }
}

/// The machine's IANA time zone name (`iana_time_zone::get_timezone`).
///
/// The answer depends on the machine, so the contract claims nothing of it.
#[verifier::external_body]
pub(crate) fn system_zone() -> (r: Option<String>) {
    iana_time_zone::get_timezone().ok()
}

/// Milliseconds since the epoch for a clock reading (`None` before the epoch): the
/// reading truncated to `i64`, or 0 without one.
pub open spec fn millis_of(d: Option<u128>) -> i64 {
    match d {
        Some(x) => (x % 0x1_0000_0000_0000_0000) as u64 as i64,
        None => 0,
    }
}

pub fn millis_of_exec(d: Option<u128>) -> (r: i64)
    ensures
        r == millis_of(d),
{
    match d {
        Some(x) => (x % 0x1_0000_0000_0000_0000) as u64 as i64,
        None => 0,
    }
}

/// Milliseconds of the system clock since the epoch (`SystemTime::now().duration_since(UNIX_EPOCH)`).
///
/// The answer depends on the clock, so the contract claims nothing of it.
#[verifier::external_body]
fn system_clock_millis() -> (r: Option<u128>) {
    std::time::SystemTime::now().duration_since(std::time::UNIX_EPOCH).ok().map(|d| d.as_millis())
}

/// The current time in milliseconds since the epoch (0 when the clock reads before it).
pub fn now_ms() -> (r: i64)
    ensures
        exists|d: Option<u128>| r == millis_of(d),
{
    let d = system_clock_millis();
    millis_of_exec(d)
}

} // verus!
