//! From a tease's wording to a concrete reset window.
//!
//! "coming in Tuesday" posted at some instant means: the first Tuesday on or
//! after the post's calendar date in Pacific time, over the customary reset
//! hours (23:00 to 02:00 UTC unless the upstream `time_window` says otherwise).
use vstd::prelude::*;
use crate::json::{Json, JsonV, as_str, oget, opt_view};
use crate::num::Number;
use crate::rx::{lowercase, re_group1, re_is_match, regex_group1, regex_is_match, to_lowercase};
use crate::text::str_eq;
use crate::time::{
    DAY, HOUR, MAX_MS, MIN_MS, in_chrono_range, time_ok, utc_midnight, utc_midnight_exec, utc_weekday,
    utc_weekday_exec, zone_date_as_utc, zone_date_as_utc_exec,
};

verus! {

broadcast use vstd::string::group_string_axioms;

/// The day a tease points at.
#[derive(Clone, Copy, Debug, PartialEq)]
pub enum DayKey {
    Today,
    Tomorrow,
    Weekend,
    /// A weekday, 0 = Sunday.
    Dow(u32),
}

pub open spec fn pat_today() -> Seq<char> {
    "\\btoday|tonight|end of day|eod\\b"@
}

pub open spec fn pat_tomorrow() -> Seq<char> {
    "\\btomorrow\\b"@
}

pub open spec fn pat_weekday() -> Seq<char> {
    "\\b(sunday|monday|tuesday|wednesday|thursday|friday|saturday)\\b"@
}

pub open spec fn pat_weekend() -> Seq<char> {
    "\\bweekend\\b"@
}

/// Index of a lower-case English weekday name, 0 = Sunday.
pub open spec fn weekday_index(name: Seq<char>) -> Option<u32> {
    if name == "sunday"@ {
        Some(0)
    } else if name == "monday"@ {
        Some(1)
    } else if name == "tuesday"@ {
        Some(2)
    } else if name == "wednesday"@ {
        Some(3)
    } else if name == "thursday"@ {
        Some(4)
    } else if name == "friday"@ {
        Some(5)
    } else if name == "saturday"@ {
        Some(6)
    } else {
        None
    }
}

/// The day a tease's text points at: today/tonight/end of day first, then
/// tomorrow, then a named weekday, then the weekend; matched on the lower-cased text.
pub open spec fn day_key(text: JsonV) -> Option<DayKey> {
    match as_str(text) {
        None => None,
        Some(s) => {
            let t = lowercase(s);
            if t.len() == 0 {
                None
            } else if re_is_match(pat_today(), t) {
                Some(DayKey::Today)
            } else if re_is_match(pat_tomorrow(), t) {
                Some(DayKey::Tomorrow)
            } else if re_group1(pat_weekday(), t) matches Some(n) && weekday_index(n) is Some {
                Some(DayKey::Dow(weekday_index(re_group1(pat_weekday(), t)->0)->0))
            } else if re_is_match(pat_weekend(), t) {
                Some(DayKey::Weekend)
            } else {
                None
            }
        },
    }
}

fn weekday_index_exec(name: &str) -> (r: Option<u32>)
    ensures
        r == weekday_index(name@),
{
    if str_eq(name, "sunday") {
        Some(0)
    } else if str_eq(name, "monday") {
        Some(1)
    } else if str_eq(name, "tuesday") {
        Some(2)
    } else if str_eq(name, "wednesday") {
        Some(3)
    } else if str_eq(name, "thursday") {
        Some(4)
    } else if str_eq(name, "friday") {
        Some(5)
    } else if str_eq(name, "saturday") {
        Some(6)
    } else {
        None
    }
}

pub fn day_key_exec(text: &Json) -> (r: Option<DayKey>)
    ensures
        r == day_key(text@),
{
    let s = match text.as_str() {
        Some(s) => s,
        None => return None,
    };
    let t = to_lowercase(s);
    let t = t.as_str();
    if t.is_empty() {
        return None;
    }
    if regex_is_match("\\btoday|tonight|end of day|eod\\b", t) {
        return Some(DayKey::Today);
    }
    if regex_is_match("\\btomorrow\\b", t) {
        return Some(DayKey::Tomorrow);
    }
    match regex_group1("\\b(sunday|monday|tuesday|wednesday|thursday|friday|saturday)\\b", t) {
        Some(n) => match weekday_index_exec(n.as_str()) {
            Some(i) => return Some(DayKey::Dow(i)),
            None => {},
        },
        None => {},
    }
    if regex_is_match("\\bweekend\\b", t) {
        return Some(DayKey::Weekend);
    }
    None
}

/// A window hour from the upstream `time_window`: a number from 0 to 23
/// (fractions allowed), as milliseconds after midnight.
pub open spec fn window_hour(v: Option<JsonV>) -> Option<int> {
    match v {
        Some(JsonV::Num(n)) => if n.compare_int(0) >= 0 && n.compare_int(23) <= 0 {
            Some(n.floor_scaled(HOUR as int))
        } else {
            None
        },
        _ => None,
    }
}

fn window_hour_exec(v: Option<&Json>) -> (r: Option<i64>)
    ensures
        match r {
            Some(h) => window_hour(opt_view(v)) == Some(h as int) && 0 <= h <= 23 * HOUR,
            None => window_hour(opt_view(v)) is None,
        },
{
    match v {
        Some(Json::Num(n)) => {
            if n.compare_int_exec(0) >= 0 && n.compare_int_exec(23) <= 0 {
                let h = n.floor_mul(3_600_000);
                proof {
                    lemma_floor_scaled_bounds(*n, HOUR as int);
                }
                Some(h)
            } else {
                None
            }
        },
        _ => None,
    }
}

proof fn lemma_floor_scaled_bounds(n: Number, scale: int)
    requires
        n.compare_int(0) >= 0,
        n.compare_int(23) <= 0,
        0 < scale <= u32::MAX,
    ensures
        0 <= n.floor_scaled(scale) <= 23 * scale,
{
    let a = n.num();
    let b = n.den();
    assert(b > 0) by {
        match n {
            Number::Float { mant, exp } => {
                if exp < 0 {
                    vstd::arithmetic::power2::lemma_pow2_pos((-exp) as nat);
                }
            },
            _ => {},
        }
    }
    assert(a >= 0);
    assert(a <= 23 * b);
    assert(0 <= a * scale) by (nonlinear_arith)
        requires
            a >= 0,
            scale > 0,
    ;
    assert(a * scale <= 23 * scale * b) by (nonlinear_arith)
        requires
            a <= 23 * b,
            scale > 0,
    ;
    vstd::arithmetic::div_mod::lemma_div_pos_is_pos(a * scale, b);
    vstd::arithmetic::div_mod::lemma_div_is_ordered(a * scale, 23 * scale * b, b);
    vstd::arithmetic::div_mod::lemma_div_multiples_vanish(23 * scale, b);
    assert(23 * scale * b == b * (23 * scale)) by (nonlinear_arith);
}

/// A concrete window `[start, end)` in milliseconds.
pub struct Target {
    pub start: i64,
    pub end: i64,
}

/// Days from weekday `wd` forward to weekday `want` (0 to 6).
pub open spec fn days_until(wd: int, want: int) -> int {
    (want - wd + 7) % 7
}

/// The first day `base + k * DAY` (k >= 0) of `chrono`'s range.
pub open spec fn first_day_in_range(base: int) -> int {
    base + ((MIN_MS - base + DAY - 1) / (DAY as int)) * (DAY as int)
}

/// The first day `base + k * DAY` (k >= 0) whose UTC weekday reads `want`,
/// a day outside `chrono`'s range reading as Sunday: the day-by-day search.
/// Before the range, the search climbs to the range's first day and goes on
/// from there. Looking for Sunday, it stops at the first day past the range's
/// end. Looking for another weekday from a day whose search would step past
/// the end, the search never ends; the value given there is the day of the
/// step count within the week.
pub open spec fn next_weekday(base: int, want: int) -> int {
    let k = days_until(utc_weekday(base), want);
    if want == 0 && !in_chrono_range(base) {
        base
    } else if base < MIN_MS {
        let d0 = first_day_in_range(base);
        d0 + days_until(utc_weekday(d0), want) * (DAY as int)
    } else if in_chrono_range(base) && base + k * (DAY as int) <= MAX_MS {
        base + k * (DAY as int)
    } else if in_chrono_range(base) && want == 0 {
        base + ((MAX_MS - base) / (DAY as int) + 1) * (DAY as int)
    } else {
        base + k * (DAY as int)
    }
}

/// The Pacific-time calendar date of the post (or of now without a post) as a UTC
/// midnight; today's UTC midnight where that date is unavailable.
pub open spec fn base_day(post_at: Option<i64>, now: i64) -> int {
    let anchor = match post_at {
        Some(p) => p,
        None => now,
    };
    match zone_date_as_utc(anchor, "America/Los_Angeles"@) {
        Some(t) => t as int,
        None => utc_midnight(now as int),
    }
}

/// The window a tease's text points at, given when it was posted.
pub open spec fn resolve_target(text: JsonV, post_at: Option<i64>, tw: Option<JsonV>, now: i64) -> Option<(int, int)> {
    match day_key(text) {
        None => None,
        Some(dk) => {
            let sh = match window_hour(oget(tw, "start_hour"@)) {
                Some(h) => h,
                None => 23 * HOUR,
            };
            let eh = match window_hour(oget(tw, "end_hour"@)) {
                Some(h) => h,
                None => 2 * HOUR,
            };
            let base = base_day(post_at, now);
            let start_day = match dk {
                DayKey::Today => base,
                DayKey::Tomorrow => base + DAY,
                DayKey::Weekend => next_weekday(base, 6),
                DayKey::Dow(w) => next_weekday(base, w as int),
            };
            let end_day = match dk {
                DayKey::Weekend => start_day + DAY,
                _ => start_day,
            };
            let start = start_day + sh;
            let end0 = end_day + eh;
            let end = if end0 <= start {
                end0 + DAY
            } else {
                end0
            };
            Some((start, end))
        },
    }
}

proof fn lemma_weekday_step(x: int)
    requires
        in_chrono_range(x),
        in_chrono_range(x + DAY),
    ensures
        utc_weekday(x + DAY) == (utc_weekday(x) + 1) % 7,
{
    let d = DAY as int;
    vstd::arithmetic::div_mod::lemma_fundamental_div_mod(x, d);
    vstd::arithmetic::div_mod::lemma_mod_bound(x, d);
    let q = x / d;
    let r = x % d;
    vstd::arithmetic::div_mod::lemma_fundamental_div_mod_converse(x + d, d, q + 1, r);
    let w = q + 4;
    vstd::arithmetic::div_mod::lemma_fundamental_div_mod(w, 7);
    vstd::arithmetic::div_mod::lemma_mod_bound(w, 7);
    let wq = w / 7;
    let wr = w % 7;
    if wr < 6 {
        vstd::arithmetic::div_mod::lemma_fundamental_div_mod_converse(w + 1, 7, wq, wr + 1);
    } else {
        vstd::arithmetic::div_mod::lemma_fundamental_div_mod_converse(w + 1, 7, wq + 1, 0);
    }
    vstd::arithmetic::div_mod::lemma_fundamental_div_mod_converse(wr + 1, 7, if wr < 6 { 0 } else { 1 }, if wr < 6 { wr + 1 } else { 0 });
}

proof fn lemma_weekday_after(base: int, j: nat)
    requires
        in_chrono_range(base),
        in_chrono_range(base + j * DAY),
    ensures
        utc_weekday(base + j * DAY) == (utc_weekday(base) + j) % 7,
    decreases j,
{
    if j > 0 {
        let p = base + (j - 1) * DAY;
        lemma_weekday_after(base, (j - 1) as nat);
        lemma_weekday_step(p);
        assert(p + DAY == base + j * DAY);
        vstd::arithmetic::div_mod::lemma_add_mod_noop(utc_weekday(base) + j - 1, 1, 7);
    }
}

/// The day a weekday tease points at: the first day on or after the base day
/// (at most six days later) whose UTC weekday is the named one.
pub proof fn lemma_next_weekday(base: int, want: int)
    requires
        in_chrono_range(base),
        in_chrono_range(base + 6 * DAY),
        0 <= want < 7,
    ensures
        utc_weekday(next_weekday(base, want)) == want,
        base <= next_weekday(base, want) <= base + 6 * DAY,
        forall|j: nat|
            j < days_until(utc_weekday(base), want) ==> #[trigger] utc_weekday(base + j * DAY) != want,
{
    let w0 = utc_weekday(base);
    vstd::arithmetic::div_mod::lemma_mod_bound(base / (DAY as int) + 4, 7);
    assert(0 <= w0 < 7);
    let k = days_until(w0, want);
    assert(0 <= k < 7);
    assert(k * DAY <= 6 * DAY) by (nonlinear_arith)
        requires
            0 <= k < 7,
    ;
    assert(k * DAY >= 0) by (nonlinear_arith)
        requires
            0 <= k,
    ;
    lemma_weekday_after(base, k as nat);
    assert forall|j: nat| j < days_until(utc_weekday(base), want) implies #[trigger] utc_weekday(
        base + j * DAY,
    ) != want by {
        assert(j * DAY <= 6 * DAY) by (nonlinear_arith)
            requires
                j < 7,
        ;
        lemma_weekday_after(base, j);
    }
}

/// Days from weekday `wd` forward to weekday `want`.
fn days_until_exec(wd: u32, want: u32) -> (r: i64)
    requires
        wd < 7,
        want < 7,
    ensures
        r as int == days_until(wd as int, want as int),
        0 <= r < 7,
{
    ((want + 7 - wd) % 7) as i64
}

/// The day the day-by-day search from `base` for weekday `want` stops at.
fn advance_to_weekday(base: i64, want: u32) -> (r: i64)
    requires
        want < 7,
        i64::MIN + 0x20_0000_0000_0000 - DAY <= base <= i64::MAX - 0x20_0000_0000_0000,
    ensures
        r as int == next_weekday(base as int, want as int),
        base <= r,
        base < MIN_MS ==> r < MIN_MS + 7 * DAY,
        base >= MIN_MS ==> r <= base + 6 * DAY,
{
    if want == 0 && (base < MIN_MS || base > MAX_MS) {
        return base;
    }
    if base < MIN_MS {
        let n: i64 = MIN_MS - base + DAY - 1;
        let k = n / DAY;
        proof {
            vstd::arithmetic::div_mod::lemma_fundamental_div_mod(n as int, DAY as int);
            vstd::arithmetic::div_mod::lemma_mod_bound(n as int, DAY as int);
        }
        let d0 = base + k * DAY;
        assert(d0 as int == first_day_in_range(base as int));
        let w = utc_weekday_exec(d0);
        let j = days_until_exec(w, want);
        proof {
            assert(j * DAY <= 6 * DAY) by (nonlinear_arith)
                requires
                    0 <= j < 7,
            ;
            assert(j * DAY >= 0) by (nonlinear_arith)
                requires
                    0 <= j,
            ;
        }
        return d0 + j * DAY;
    }
    let w = utc_weekday_exec(base);
    let k = days_until_exec(w, want);
    proof {
        assert(k * DAY <= 6 * DAY) by (nonlinear_arith)
            requires
                0 <= k < 7,
        ;
        assert(k * DAY >= 0) by (nonlinear_arith)
            requires
                0 <= k,
        ;
    }
    if base > MAX_MS {
        return base + k * DAY;
    }
    if base + k * DAY <= MAX_MS {
        return base + k * DAY;
    }
    if want == 0 {
        let q = (MAX_MS - base) / DAY;
        proof {
            vstd::arithmetic::div_mod::lemma_fundamental_div_mod((MAX_MS - base) as int, DAY as int);
            vstd::arithmetic::div_mod::lemma_mod_bound((MAX_MS - base) as int, DAY as int);
            assert(q < k) by (nonlinear_arith)
                requires
                    q * DAY <= MAX_MS - base,
                    MAX_MS - base < k * DAY,
            ;
            assert((q + 1) * DAY <= k * DAY) by (nonlinear_arith)
                requires
                    q + 1 <= k,
            ;
        }
        return base + (q + 1) * DAY;
    }
    base + k * DAY
}

/// The window hours from the upstream `time_window`, defaulting to 23:00 and 02:00.
pub open spec fn window_hours(tw: Option<JsonV>) -> (int, int) {
    (
        match window_hour(oget(tw, "start_hour"@)) {
            Some(h) => h,
            None => 23 * HOUR,
        },
        match window_hour(oget(tw, "end_hour"@)) {
            Some(h) => h,
            None => 2 * HOUR,
        },
    )
}

fn window_hours_exec(tw: Option<&Json>) -> (r: (i64, i64))
    ensures
        (r.0 as int, r.1 as int) == window_hours(opt_view(tw)),
        0 <= r.0 <= 23 * HOUR,
        0 <= r.1 <= 23 * HOUR,
{
    let tsh = match tw {
        Some(w) => w.get("start_hour"),
        None => None,
    };
    let teh = match tw {
        Some(w) => w.get("end_hour"),
        None => None,
    };
    let sh = match window_hour_exec(tsh) {
        Some(h) => h,
        None => 23 * HOUR,
    };
    let eh = match window_hour_exec(teh) {
        Some(h) => h,
        None => 2 * HOUR,
    };
    (sh, eh)
}

fn base_day_exec(post_at: Option<i64>, now: i64) -> (r: i64)
    requires
        time_ok(now as int),
    ensures
        r as int == base_day(post_at, now),
        i64::MIN + 0x20_0000_0000_0000 - DAY <= r <= i64::MAX - 0x20_0000_0000_0000,
{
    let anchor = match post_at {
        Some(p) => p,
        None => now,
    };
    let base = match zone_date_as_utc_exec(anchor, "America/Los_Angeles") {
        Some(t) => t,
        None => utc_midnight_exec(now),
    };
    proof {
        if zone_date_as_utc(anchor, "America/Los_Angeles"@) is None {
            vstd::arithmetic::div_mod::lemma_fundamental_div_mod(now as int, DAY as int);
            vstd::arithmetic::div_mod::lemma_mod_bound(now as int, DAY as int);
        }
    }
    base
}

fn start_day_exec(dk: DayKey, base: i64) -> (r: i64)
    requires
        dk matches DayKey::Dow(w) ==> w < 7,
        i64::MIN + 0x20_0000_0000_0000 - DAY <= base <= i64::MAX - 0x20_0000_0000_0000,
    ensures
        r as int == (match dk {
            DayKey::Today => base as int,
            DayKey::Tomorrow => base + DAY,
            DayKey::Weekend => next_weekday(base as int, 6),
            DayKey::Dow(w) => next_weekday(base as int, w as int),
        }),
        base <= r,
        base < MIN_MS ==> r < MIN_MS + 7 * DAY,
        base >= MIN_MS ==> r <= base + 6 * DAY,
{
    match dk {
        DayKey::Today => base,
        DayKey::Tomorrow => base + DAY,
        DayKey::Weekend => advance_to_weekday(base, 6),
        DayKey::Dow(w) => advance_to_weekday(base, w),
    }
}

pub fn resolve_target_exec(text: &Json, post_at: Option<i64>, tw: Option<&Json>, now: i64) -> (r: Option<Target>)
    requires
        time_ok(now as int),
    ensures
        match r {
            Some(t) => resolve_target(text@, post_at, opt_view(tw), now) == Some((t.start as int, t.end as int)),
            None => resolve_target(text@, post_at, opt_view(tw), now) is None,
        },
        r matches Some(t) ==> i64::MIN + 0x10_0000_0000_0000 <= t.start < t.end <= i64::MAX
            - 0x10_0000_0000_0000,
{
    let dk = match day_key_exec(text) {
        Some(d) => d,
        None => return None,
    };
    let (sh, eh) = window_hours_exec(tw);
    let base = base_day_exec(post_at, now);
    let start_day = start_day_exec(dk, base);
    let end_day = match dk {
        DayKey::Weekend => start_day + DAY,
        _ => start_day,
    };
    let start = start_day + sh;
    let end0 = end_day + eh;
    let end = if end0 <= start {
        end0 + DAY
    } else {
        end0
    };
    Some(Target { start, end })
}

} // verus!
