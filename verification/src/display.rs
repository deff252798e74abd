//! The card's second line (Chinese and English) and the daemon's display
//! decision between fresh data, a cached state and OFFLINE.
//!
//! Weekdays and "today"/"tomorrow" are judged in the user's time zone; an
//! exact reset time is shown as a countdown.
use vstd::prelude::*;
use crate::fields::{Fields, push_field, state_json, state_v};
use crate::forecast::{UNHAPPY_AFTER_DAYS, days_since_exec, days_since_v, or_null, over_three_days};
use crate::json::{
    Json, JsonV, as_str, field_get, fields_get, fields_put, get, is_obj, jview, jview_fields, oas_str,
    obj_set, oget, opt_view,
};
use crate::num::{Number, sat_i64};
use crate::target::weekday_index;
use crate::text::{decimal, decimal_text, join2, join3, str_eq};
use crate::time::{
    DAY, HOUR, LocalDay, parsed_range, parse_ms, parse_ms_exec, system_zone, time_ok, zone_day,
};

verus! {

broadcast use vstd::string::group_string_axioms;

/// A cached state older than this is not shown (12 hours).
pub const CACHE_MAX_AGE_MS: i64 = 43_200_000;

pub open spec fn cn_day(d: int) -> Seq<char> {
    if d == 0 {
        "日"@
    } else if d == 1 {
        "一"@
    } else if d == 2 {
        "二"@
    } else if d == 3 {
        "三"@
    } else if d == 4 {
        "四"@
    } else if d == 5 {
        "五"@
    } else {
        "六"@
    }
}

pub open spec fn en_day(d: int) -> Seq<char> {
    if d == 0 {
        "Sunday"@
    } else if d == 1 {
        "Monday"@
    } else if d == 2 {
        "Tuesday"@
    } else if d == 3 {
        "Wednesday"@
    } else if d == 4 {
        "Thursday"@
    } else if d == 5 {
        "Friday"@
    } else {
        "Saturday"@
    }
}

fn cn_day_exec(d: u32) -> (r: &'static str)
    ensures
        r@ == cn_day(d as int),
{
    if d == 0 {
        "日"
    } else if d == 1 {
        "一"
    } else if d == 2 {
        "二"
    } else if d == 3 {
        "三"
    } else if d == 4 {
        "四"
    } else if d == 5 {
        "五"
    } else {
        "六"
    }
}

fn en_day_exec(d: u32) -> (r: &'static str)
    ensures
        r@ == en_day(d as int),
{
    if d == 0 {
        "Sunday"
    } else if d == 1 {
        "Monday"
    } else if d == 2 {
        "Tuesday"
    } else if d == 3 {
        "Wednesday"
    } else if d == 4 {
        "Thursday"
    } else if d == 5 {
        "Friday"
    } else {
        "Saturday"
    }
}

/// Picks the Chinese or the English wording.
pub open spec fn pick(zh: bool, a: Seq<char>, b: Seq<char>) -> Seq<char> {
    if zh {
        a
    } else {
        b
    }
}

pub open spec fn imminent(zh: bool) -> Seq<char> {
    pick(zh, "即将重置"@, "reset imminent"@)
}

/// The local day of `ms` in the resolved zone (none without a zone).
pub open spec fn zday(ms: i64, zone: Option<Seq<char>>) -> Option<LocalDay> {
    match zone {
        Some(z) => zone_day(ms, z),
        None => None,
    }
}

/// A duration rounded to whole units, halves away from zero.
pub open spec fn round_div(x: int, unit: int) -> int {
    (2 * x + unit) / (2 * unit)
}

/// Countdown to an exact reset time: days beyond 48 hours, hours from 1 to
/// 48 hours, "imminent" under an hour or once the time has passed.
pub open spec fn countdown(zh: bool, t: i64, now: i64) -> Seq<char> {
    if t > now {
        let diff = t - now;
        if diff < HOUR {
            imminent(zh)
        } else if diff < 48 * HOUR {
            let h = round_div(diff, HOUR as int);
            pick(zh, decimal(h) + " 小时后重置"@, "reset in ~"@ + decimal(h) + "h"@)
        } else {
            let d = round_div(diff, DAY as int);
            pick(
                zh,
                decimal(d) + " 天后重置"@,
                "reset in "@ + decimal(d) + (if d == 1 {
                    " day"@
                } else {
                    " days"@
                }),
            )
        }
    } else {
        imminent(zh)
    }
}

/// Wording for a recent reset with no signal, by the reset's type.
pub open spec fn since_text(zh: bool, reset_type: Option<Seq<char>>, days: Number) -> Seq<char> {
    let just = days.compare_int(1) < 0;
    let d = decimal(sat_i64(days.floor_scaled(1)) as int);
    if reset_type == Some("banked"@) {
        if just {
            pick(zh, "刚发了重置卡"@, "card just issued"@)
        } else {
            pick(zh, "上次发卡 "@ + d + " 天前"@, "card issued "@ + d + "d ago"@)
        }
    } else if reset_type == Some("regular"@) {
        if just {
            pick(zh, "用量刚重置"@, "usage just reset"@)
        } else {
            pick(zh, "用量 "@ + d + " 天前重置"@, "usage reset "@ + d + "d ago"@)
        }
    } else {
        if just {
            pick(zh, "刚刚重置"@, "just reset"@)
        } else {
            pick(zh, "上次重置 "@ + d + " 天前"@, "last reset "@ + d + "d ago"@)
        }
    }
}

/// The fallbacks after the time-based wordings: announced, hinted, days since.
pub open spec fn happy_rest(zh: bool, d: Fields) -> Seq<char> {
    if fields_get(d, "confirmed"@) is Some {
        pick(zh, "已预告重置"@, "reset announced"@)
    } else if fields_get(d, "teaseTier"@) is Some {
        pick(zh, "有重置暗示"@, "reset hinted"@)
    } else {
        match fields_get(d, "daysSince"@) {
            Some(JsonV::Num(n)) => since_text(
                zh,
                match fields_get(d, "resetType"@) {
                    Some(v) => as_str(v),
                    None => None,
                },
                n,
            ),
            _ => pick(zh, "已预告重置"@, "reset announced"@),
        }
    }
}

/// Wording from a target window: imminent once it has started or passed,
/// otherwise today/tomorrow/the weekday of its start in the user's zone.
pub open spec fn target_text(zh: bool, d: Fields, now: i64, zone: Option<Seq<char>>) -> Option<Seq<char>> {
    match parse_ms(fields_get(d, "targetStart"@)) {
        Some(ts) => {
            let te = parse_ms(fields_get(d, "targetEnd"@));
            if te matches Some(e) && ts <= now && now < e {
                Some(imminent(zh))
            } else if te matches Some(e) && e <= now {
                Some(imminent(zh))
            } else {
                match (zday(ts, zone), zday(now, zone), zday((now + DAY) as i64, zone)) {
                    (Some(tgt), Some(cur), Some(nxt)) => if (tgt.0, tgt.1, tgt.2) == (cur.0, cur.1, cur.2) {
                        Some(pick(zh, "预计今天重置"@, "reset expected today"@))
                    } else if (tgt.0, tgt.1, tgt.2) == (nxt.0, nxt.1, nxt.2) {
                        Some(pick(zh, "预计明天重置"@, "reset expected tomorrow"@))
                    } else {
                        Some(pick(zh, "预计周"@ + cn_day(tgt.3 as int) + "重置"@, "reset expected "@ + en_day(tgt.3 as int)))
                    },
                    _ => None,
                }
            }
        },
        None => None,
    }
}

/// The second line for a happy state.
pub open spec fn happy_text(zh: bool, d: Fields, now: i64, zone: Option<Seq<char>>) -> Seq<char> {
    match parse_ms(fields_get(d, "scheduledISO"@)) {
        Some(t) => countdown(zh, t, now),
        None => {
            let from_window = match parse_ms(fields_get(d, "windowEnd"@)) {
                Some(we) => if we <= now {
                    Some(imminent(zh))
                } else {
                    match zday(we, zone) {
                        Some(ld) => Some(pick(zh, "最晚周"@ + cn_day(ld.3 as int) + "重置"@, "reset by "@ + en_day(ld.3 as int))),
                        None => None,
                    }
                },
                None => None,
            };
            match from_window {
                Some(x) => x,
                None => match target_text(zh, d, now, zone) {
                    Some(x) => x,
                    None => happy_rest(zh, d),
                },
            }
        },
    }
}

/// The second line for a state of kind `kind` with detail `d`.
pub open spec fn sub_text(zh: bool, kind: Seq<char>, d: Fields, now: i64, zone: Option<Seq<char>>) -> Seq<char> {
    if kind == "happy"@ {
        happy_text(zh, d, now, zone)
    } else if kind == "unhappy"@ {
        pick(zh, "暂无重置预告"@, "no reset news"@)
    } else {
        pick(zh, "数据不可用"@, "data unavailable"@)
    }
}

/// The kind of a state (`offline` when missing) and its detail fields (empty when not an object).
pub open spec fn state_kind(s: JsonV) -> Seq<char> {
    match get(s, "kind"@) {
        Some(JsonV::Str(k)) => k,
        _ => "offline"@,
    }
}

pub open spec fn state_detail(s: JsonV) -> Fields {
    match get(s, "detail"@) {
        Some(JsonV::Obj(fs)) => fs,
        _ => Seq::empty(),
    }
}

/// `{"zh": ..., "en": ...}`.
pub open spec fn sub_pair(kind: Seq<char>, d: Fields, now: i64, zone: Option<Seq<char>>) -> JsonV {
    JsonV::Obj(
        seq![
            ("zh"@, JsonV::Str(sub_text(true, kind, d, now, zone))),
            ("en"@, JsonV::Str(sub_text(false, kind, d, now, zone))),
        ],
    )
}

// ── the daemon's display decision ──

/// A detail field that is present and not `null`.
pub open spec fn present(d: Fields, k: Seq<char>) -> bool {
    match fields_get(d, k) {
        Some(v) => v != JsonV::Null,
        None => false,
    }
}

/// A cached detail that carries a reset signal.
pub open spec fn has_signal(d: Fields) -> bool {
    present(d, "scheduledISO"@) || present(d, "windowEnd"@) || present(d, "targetStart"@)
        || present(d, "teaseTier"@) || present(d, "confirmed"@)
}

/// A cache `{state, at}` worth showing at `now`: a happy or unhappy state
/// with a detail object, saved less than 12 hours ago and not more than an
/// hour in the future.
pub open spec fn cache_ok(c: JsonV, now: i64) -> bool {
    let st = get(c, "state"@);
    let kind = oas_str(oget(st, "kind"@));
    &&& (kind == Some("happy"@) || kind == Some("unhappy"@))
    &&& oget(st, "detail"@) matches Some(JsonV::Obj(_))
    &&& match get(c, "at"@) {
        Some(JsonV::Num(Number::Int(a))) => -HOUR < now - a && now - a < CACHE_MAX_AGE_MS,
        _ => false,
    }
}

/// What is shown when neither fresh data nor a usable cache is at hand.
pub open spec fn offline_display() -> JsonV {
    state_v(
        "offline"@,
        seq![("sub"@, JsonV::Obj(seq![("zh"@, JsonV::Str("数据不可用"@)), ("en"@, JsonV::Str("data unavailable"@))]))],
    )
}

/// A cached detail with `daysSince` recomputed from `lastResetISO` at `now`.
pub open spec fn refreshed_detail(d: Fields, now: i64) -> Fields {
    match parse_ms(fields_get(d, "lastResetISO"@)) {
        Some(l) => fields_put(d, "daysSince"@, days_since_v(l, now)),
        None => d,
    }
}

/// The kind of a cached state at `now`: a signal keeps the saved kind; without
/// one, the days since the last reset decide.
pub open spec fn cached_kind(s: JsonV, d: Fields, now: i64) -> Seq<char> {
    if has_signal(d) {
        match oas_str(get(s, "kind"@)) {
            Some(k) => k,
            None => "unhappy"@,
        }
    } else {
        match parse_ms(fields_get(d, "lastResetISO"@)) {
            Some(l) => if over_three_days(l, now) {
                "unhappy"@
            } else {
                "happy"@
            },
            None => "unhappy"@,
        }
    }
}

/// The display decision: fresh data that is not offline wins and becomes the
/// new cache; else a usable cache, with its second line recomputed for `now`;
/// else OFFLINE. The second component is the cache to keep.
pub open spec fn display_in_zone(
    fresh: Option<JsonV>,
    cache: Option<JsonV>,
    now: i64,
    zone: Option<Seq<char>>,
) -> (JsonV, JsonV) {
    match fresh {
        Some(f) if oas_str(get(f, "kind"@)) != Some("offline"@) => (
            f,
            JsonV::Obj(seq![("state"@, f), ("at"@, JsonV::Num(Number::Int(now)))]),
        ),
        _ => match cache {
            Some(c) if cache_ok(c, now) => {
                let s = or_null(get(c, "state"@));
                let d = state_detail(s);
                if !has_signal(d) && parse_ms(fields_get(d, "lastResetISO"@)) is None {
                    (s, c)
                } else {
                    let d2 = refreshed_detail(d, now);
                    let k = cached_kind(s, d, now);
                    (state_v(k, fields_put(d2, "sub"@, sub_pair(k, d2, now, zone))), c)
                }
            },
            _ => (offline_display(), or_null(cache)),
        },
    }
}

// ── laws of the display decision ──

/// A state built as `{kind, detail}` reads back as that kind and those detail fields.
pub proof fn lemma_state_parts(k: Seq<char>, d: Fields)
    ensures
        state_kind(state_v(k, d)) == k,
        state_detail(state_v(k, d)) == d,
        oas_str(get(state_v(k, d), "kind"@)) == Some(k),
{
    reveal_strlit("kind");
    reveal_strlit("detail");
    assert("kind"@.len() != "detail"@.len());
    let fs = seq![("kind"@, JsonV::Str(k)), ("detail"@, JsonV::Obj(d))];
    crate::json::lemma_fields_get_found(fs, "kind"@, 0);
    crate::json::lemma_fields_get_found(fs, "detail"@, 1);
}

/// Fresh data that is not offline is shown as it is, and becomes the cache,
/// stamped with the current time.
pub proof fn lemma_fresh_wins(f: JsonV, cache: Option<JsonV>, now: i64, zone: Option<Seq<char>>)
    requires
        oas_str(get(f, "kind"@)) != Some("offline"@),
    ensures
        display_in_zone(Some(f), cache, now, zone) == (
            f,
            JsonV::Obj(seq![("state"@, f), ("at"@, JsonV::Num(Number::Int(now)))]),
        ),
{
}

/// Without usable fresh data (none, or offline) the cache is kept exactly as
/// it was, `null` when there was none: offline data never overwrites it.
pub proof fn lemma_cache_kept(fresh: Option<JsonV>, cache: Option<JsonV>, now: i64, zone: Option<Seq<char>>)
    requires
        fresh matches Some(f) ==> oas_str(get(f, "kind"@)) == Some("offline"@),
    ensures
        display_in_zone(fresh, cache, now, zone).1 == or_null(cache),
{
}

/// OFFLINE is never shown while a happy or unhappy state saved less than
/// twelve hours ago (and not more than an hour ahead) is cached: the state
/// shown is then happy or unhappy.
pub proof fn lemma_offline_needs_stale_cache(
    fresh: Option<JsonV>,
    c: JsonV,
    now: i64,
    zone: Option<Seq<char>>,
)
    requires
        fresh matches Some(f) ==> oas_str(get(f, "kind"@)) == Some("offline"@),
        cache_ok(c, now),
    ensures
        oas_str(get(display_in_zone(fresh, Some(c), now, zone).0, "kind"@)) == Some("happy"@) || oas_str(
            get(display_in_zone(fresh, Some(c), now, zone).0, "kind"@),
        ) == Some("unhappy"@),
{
    let s = or_null(get(c, "state"@));
    let d = state_detail(s);
    if !has_signal(d) && parse_ms(fields_get(d, "lastResetISO"@)) is None {
    } else {
        let d2 = refreshed_detail(d, now);
        let k = cached_kind(s, d, now);
        lemma_state_parts(k, fields_put(d2, "sub"@, sub_pair(k, d2, now, zone)));
    }
}

/// With neither usable fresh data nor a usable cache, OFFLINE is shown, with
/// "data unavailable" as its second line.
pub proof fn lemma_offline_without_data(fresh: Option<JsonV>, cache: Option<JsonV>, now: i64, zone: Option<Seq<char>>)
    requires
        fresh matches Some(f) ==> oas_str(get(f, "kind"@)) == Some("offline"@),
        !(cache matches Some(c) && cache_ok(c, now)),
    ensures
        display_in_zone(fresh, cache, now, zone).0 == offline_display(),
        state_kind(offline_display()) == "offline"@,
{
    lemma_state_parts(
        "offline"@,
        seq![("sub"@, JsonV::Obj(seq![("zh"@, JsonV::Str("数据不可用"@)), ("en"@, JsonV::Str("data unavailable"@))]))],
    );
}

/// A cached state without a signal is judged again at `now` by the days
/// since its last reset: happy within three days, unhappy after.
pub proof fn lemma_cached_ledger_rejudged(c: JsonV, now: i64, zone: Option<Seq<char>>, l: i64)
    requires
        cache_ok(c, now),
        !has_signal(state_detail(or_null(get(c, "state"@)))),
        parse_ms(fields_get(state_detail(or_null(get(c, "state"@))), "lastResetISO"@)) == Some(l),
    ensures
        state_kind(display_in_zone(None, Some(c), now, zone).0) == (if over_three_days(l, now) {
            "unhappy"@
        } else {
            "happy"@
        }),
{
    let s = or_null(get(c, "state"@));
    let d = state_detail(s);
    let d2 = refreshed_detail(d, now);
    let k = cached_kind(s, d, now);
    lemma_state_parts(k, fields_put(d2, "sub"@, sub_pair(k, d2, now, zone)));
}

/// The second line of an unhappy state is "no reset news", and of a state
/// neither happy nor unhappy "data unavailable", whatever the detail, the
/// time and the zone.
pub proof fn lemma_sub_line_by_kind(kind: Seq<char>, d: Fields, now: i64, zone: Option<Seq<char>>)
    ensures
        kind == "unhappy"@ ==> sub_pair(kind, d, now, zone) == JsonV::Obj(
            seq![("zh"@, JsonV::Str("暂无重置预告"@)), ("en"@, JsonV::Str("no reset news"@))],
        ),
        kind != "happy"@ && kind != "unhappy"@ ==> sub_pair(kind, d, now, zone) == JsonV::Obj(
            seq![("zh"@, JsonV::Str("数据不可用"@)), ("en"@, JsonV::Str("data unavailable"@))],
        ),
{
    reveal_strlit("happy");
    reveal_strlit("unhappy");
    assert("happy"@.len() != "unhappy"@.len());
}

/// A happy state whose exact reset time `t` has come, or is less than an
/// hour away, reads "reset imminent", whatever else its detail holds.
pub proof fn lemma_exact_time_imminent(d: Fields, now: i64, zone: Option<Seq<char>>, t: i64)
    requires
        parse_ms(fields_get(d, "scheduledISO"@)) == Some(t),
        t - now < HOUR,
    ensures
        sub_pair("happy"@, d, now, zone) == JsonV::Obj(
            seq![("zh"@, JsonV::Str("即将重置"@)), ("en"@, JsonV::Str("reset imminent"@))],
        ),
{
}

/// Offline fresh data counts as no fresh data at all.
pub proof fn lemma_offline_fresh_ignored(f: JsonV, cache: Option<JsonV>, now: i64, zone: Option<Seq<char>>)
    requires
        oas_str(get(f, "kind"@)) == Some("offline"@),
    ensures
        display_in_zone(Some(f), cache, now, zone) == display_in_zone(None, cache, now, zone),
{
}

/// A usable cache whose detail has neither a reset signal nor a last reset
/// is shown exactly as it was saved, and kept as it was.
pub proof fn lemma_plain_cache_shown(fresh: Option<JsonV>, c: JsonV, now: i64, zone: Option<Seq<char>>)
    requires
        fresh matches Some(f) ==> oas_str(get(f, "kind"@)) == Some("offline"@),
        cache_ok(c, now),
        !has_signal(state_detail(or_null(get(c, "state"@)))),
        parse_ms(fields_get(state_detail(or_null(get(c, "state"@))), "lastResetISO"@)) is None,
    ensures
        display_in_zone(fresh, Some(c), now, zone) == (or_null(get(c, "state"@)), c),
{
}

/// ASCII lower case: `A` to `Z` become `a` to `z`, other characters stay.
pub open spec fn ascii_lower(s: Seq<char>) -> Seq<char> {
    Seq::new(
        s.len(),
        |i: int|
            if 'A' <= s[i] && s[i] <= 'Z' {
                ((s[i] as u32) + 32) as char
            } else {
                s[i]
            },
    )
}

/// A tease names a weekday by the English name the second line gives it: the
/// lower-cased name of weekday `w` (0 = Sunday) reads as weekday `w`, and no
/// other word reads as a weekday.
pub proof fn lemma_weekday_names(n: Seq<char>)
    ensures
        forall|w: int| 0 <= w < 7 ==> #[trigger] weekday_index(ascii_lower(en_day(w))) == Some(w as u32),
        weekday_index(n) matches Some(w) ==> w < 7 && n == ascii_lower(en_day(w as int)),
{
    reveal_strlit("Sunday");
    reveal_strlit("Monday");
    reveal_strlit("Tuesday");
    reveal_strlit("Wednesday");
    reveal_strlit("Thursday");
    reveal_strlit("Friday");
    reveal_strlit("Saturday");
    reveal_strlit("sunday");
    reveal_strlit("monday");
    reveal_strlit("tuesday");
    reveal_strlit("wednesday");
    reveal_strlit("thursday");
    reveal_strlit("friday");
    reveal_strlit("saturday");
    assert(ascii_lower("Sunday"@) =~= "sunday"@);
    assert(ascii_lower("Monday"@) =~= "monday"@);
    assert(ascii_lower("Tuesday"@) =~= "tuesday"@);
    assert(ascii_lower("Wednesday"@) =~= "wednesday"@);
    assert(ascii_lower("Thursday"@) =~= "thursday"@);
    assert(ascii_lower("Friday"@) =~= "friday"@);
    assert(ascii_lower("Saturday"@) =~= "saturday"@);
    assert("sunday"@[0] != "monday"@[0] && "sunday"@[0] != "tuesday"@[0] && "sunday"@[0] != "wednesday"@[0]);
    assert("sunday"@[0] != "thursday"@[0] && "sunday"@[0] != "friday"@[0] && "sunday"@[1] != "saturday"@[1]);
    assert("monday"@[0] != "tuesday"@[0] && "monday"@[0] != "wednesday"@[0] && "monday"@[0] != "thursday"@[0]);
    assert("monday"@[0] != "friday"@[0] && "monday"@[0] != "saturday"@[0]);
    assert("tuesday"@[1] != "wednesday"@[1] && "tuesday"@[1] != "thursday"@[1]);
    assert("tuesday"@[0] != "friday"@[0] && "tuesday"@[0] != "saturday"@[0]);
    assert("wednesday"@[0] != "thursday"@[0] && "wednesday"@[0] != "friday"@[0] && "wednesday"@[0] != "saturday"@[0]);
    assert("thursday"@[0] != "friday"@[0] && "thursday"@[1] != "saturday"@[1]);
    assert("friday"@[0] != "saturday"@[0]);
    assert(weekday_index("sunday"@) == Some(0u32));
    assert(weekday_index("monday"@) == Some(1u32));
    assert(weekday_index("tuesday"@) == Some(2u32));
    assert(weekday_index("wednesday"@) == Some(3u32));
    assert(weekday_index("thursday"@) == Some(4u32));
    assert(weekday_index("friday"@) == Some(5u32));
    assert(weekday_index("saturday"@) == Some(6u32));
    assert forall|w: int| 0 <= w < 7 implies #[trigger] weekday_index(ascii_lower(en_day(w))) == Some(
        w as u32,
    ) by {
        if w == 0 {
        } else if w == 1 {
        } else if w == 2 {
        } else if w == 3 {
        } else if w == 4 {
        } else if w == 5 {
        } else {
        }
    }
}

/// A happy state with no exact time but a teased window still open reads
/// "reset by" the weekday, in the user's zone, of the window's end (its
/// deadline), whatever the window's start.
pub proof fn lemma_window_deadline_day(d: Fields, now: i64, z: Seq<char>, we: i64, ld: LocalDay)
    requires
        parse_ms(fields_get(d, "scheduledISO"@)) is None,
        parse_ms(fields_get(d, "windowEnd"@)) == Some(we),
        now < we,
        zone_day(we, z) == Some(ld),
    ensures
        sub_pair("happy"@, d, now, Some(z)) == JsonV::Obj(
            seq![
                ("zh"@, JsonV::Str("最晚周"@ + cn_day(ld.3 as int) + "重置"@)),
                ("en"@, JsonV::Str("reset by "@ + en_day(ld.3 as int))),
            ],
        ),
{
}

// ── executable ──

fn zday_exec(ms: i64, zone: Option<&str>) -> (r: Option<LocalDay>)
    ensures
        r == zday(ms, match zone {
            Some(z) => Some(z@),
            None => None,
        }),
        r matches Some(d) ==> d.3 < 7,
{
    match zone {
        Some(z) => crate::time::chrono_zone_day(ms, z),
        None => None,
    }
}

fn pick_exec(zh: bool, a: &str, b: &str) -> (r: String)
    ensures
        r@ == pick(zh, a@, b@),
{
    if zh {
        a.to_string()
    } else {
        b.to_string()
    }
}

fn countdown_exec(zh: bool, t: i64, now: i64) -> (r: String)
    requires
        parsed_range(t as int),
        time_ok(now as int),
    ensures
        r@ == countdown(zh, t, now),
{
    if t > now {
        let diff = t - now;
        if diff < HOUR {
            pick_exec(zh, "即将重置", "reset imminent")
        } else if diff < 48 * HOUR {
            let h = (2 * diff + HOUR) / (2 * HOUR);
            let hs = decimal_text(h);
            if zh {
                join2(hs.as_str(), " 小时后重置")
            } else {
                join3("reset in ~", hs.as_str(), "h")
            }
        } else {
            let d = (diff + DAY / 2) / DAY;
            proof {
                let x = diff as int;
                let dd = DAY as int;
                let q = (x + dd / 2) / dd;
                let rr = (x + dd / 2) % dd;
                vstd::arithmetic::div_mod::lemma_fundamental_div_mod(x + dd / 2, dd);
                vstd::arithmetic::div_mod::lemma_mod_bound(x + dd / 2, dd);
                assert(2 * x + dd == q * (2 * dd) + 2 * rr) by (nonlinear_arith)
                    requires
                        x + dd / 2 == dd * q + rr,
                        dd == 86_400_000,
                ;
                vstd::arithmetic::div_mod::lemma_fundamental_div_mod_converse(2 * x + dd, 2 * dd, q, 2 * rr);
            }
            let ds = decimal_text(d);
            if zh {
                join2(ds.as_str(), " 天后重置")
            } else {
                join3("reset in ", ds.as_str(), if d == 1 { " day" } else { " days" })
            }
        }
    } else {
        pick_exec(zh, "即将重置", "reset imminent")
    }
}

fn since_text_exec(zh: bool, reset_type: Option<&str>, days: &Number) -> (r: String)
    ensures
        r@ == since_text(zh, match reset_type {
            Some(s) => Some(s@),
            None => None,
        }, *days),
{
    let just = days.compare_int_exec(1) < 0;
    let ds = decimal_text(days.floor_mul(1));
    let d = ds.as_str();
    let banked = match reset_type {
        Some(t) => str_eq(t, "banked"),
        None => false,
    };
    let regular = match reset_type {
        Some(t) => str_eq(t, "regular"),
        None => false,
    };
    if banked {
        if just {
            pick_exec(zh, "刚发了重置卡", "card just issued")
        } else if zh {
            join3("上次发卡 ", d, " 天前")
        } else {
            join3("card issued ", d, "d ago")
        }
    } else if regular {
        if just {
            pick_exec(zh, "用量刚重置", "usage just reset")
        } else if zh {
            join3("用量 ", d, " 天前重置")
        } else {
            join3("usage reset ", d, "d ago")
        }
    } else {
        if just {
            pick_exec(zh, "刚刚重置", "just reset")
        } else if zh {
            join3("上次重置 ", d, " 天前")
        } else {
            join3("last reset ", d, "d ago")
        }
    }
}

fn happy_rest_exec(zh: bool, d: &Vec<(String, Json)>) -> (r: String)
    ensures
        r@ == happy_rest(zh, jview_fields(d@)),
{
    if field_get(d, "confirmed").is_some() {
        return pick_exec(zh, "已预告重置", "reset announced");
    }
    if field_get(d, "teaseTier").is_some() {
        return pick_exec(zh, "有重置暗示", "reset hinted");
    }
    match field_get(d, "daysSince") {
        Some(Json::Num(n)) => {
            let ty = match field_get(d, "resetType") {
                Some(v) => v.as_str(),
                None => None,
            };
            since_text_exec(zh, ty, n)
        },
        _ => pick_exec(zh, "已预告重置", "reset announced"),
    }
}

fn target_text_exec(zh: bool, d: &Vec<(String, Json)>, now: i64, zone: Option<&str>) -> (r: Option<String>)
    requires
        time_ok(now as int),
    ensures
        (match r {
            Some(s) => Some(s@),
            None => None,
        }) == target_text(zh, jview_fields(d@), now, match zone {
            Some(z) => Some(z@),
            None => None,
        }),
{
    let ts = match parse_ms_exec(field_get(d, "targetStart")) {
        Some(t) => t,
        None => return None,
    };
    let te = parse_ms_exec(field_get(d, "targetEnd"));
    match te {
        Some(e) => {
            if ts <= now && now < e {
                return Some(pick_exec(zh, "即将重置", "reset imminent"));
            }
            if e <= now {
                return Some(pick_exec(zh, "即将重置", "reset imminent"));
            }
        },
        None => {},
    }
    let tgt = zday_exec(ts, zone);
    let cur = zday_exec(now, zone);
    let nxt = zday_exec(now + DAY, zone);
    match (tgt, cur, nxt) {
        (Some(t), Some(c), Some(n)) => {
            if t.0 == c.0 && t.1 == c.1 && t.2 == c.2 {
                Some(pick_exec(zh, "预计今天重置", "reset expected today"))
            } else if t.0 == n.0 && t.1 == n.1 && t.2 == n.2 {
                Some(pick_exec(zh, "预计明天重置", "reset expected tomorrow"))
            } else if zh {
                Some(join3("预计周", cn_day_exec(t.3), "重置"))
            } else {
                Some(join2("reset expected ", en_day_exec(t.3)))
            }
        },
        _ => None,
    }
}

fn happy_text_exec(zh: bool, d: &Vec<(String, Json)>, now: i64, zone: Option<&str>) -> (r: String)
    requires
        time_ok(now as int),
    ensures
        r@ == happy_text(zh, jview_fields(d@), now, match zone {
            Some(z) => Some(z@),
            None => None,
        }),
{
    match parse_ms_exec(field_get(d, "scheduledISO")) {
        Some(t) => return countdown_exec(zh, t, now),
        None => {},
    }
    match parse_ms_exec(field_get(d, "windowEnd")) {
        Some(we) => {
            if we <= now {
                return pick_exec(zh, "即将重置", "reset imminent");
            }
            match zday_exec(we, zone) {
                Some(ld) => {
                    if zh {
                        return join3("最晚周", cn_day_exec(ld.3), "重置");
                    } else {
                        return join2("reset by ", en_day_exec(ld.3));
                    }
                },
                None => {},
            }
        },
        None => {},
    }
    match target_text_exec(zh, d, now, zone) {
        Some(x) => x,
        None => happy_rest_exec(zh, d),
    }
}

fn sub_text_exec(zh: bool, kind: &str, d: &Vec<(String, Json)>, now: i64, zone: Option<&str>) -> (r: String)
    requires
        time_ok(now as int),
    ensures
        r@ == sub_text(zh, kind@, jview_fields(d@), now, match zone {
            Some(z) => Some(z@),
            None => None,
        }),
{
    if str_eq(kind, "happy") {
        happy_text_exec(zh, d, now, zone)
    } else if str_eq(kind, "unhappy") {
        pick_exec(zh, "暂无重置预告", "no reset news")
    } else {
        pick_exec(zh, "数据不可用", "data unavailable")
    }
}

/// `{"zh", "en"}` for a state's kind and detail fields, in a resolved zone.
pub fn sub_pair_exec(kind: &str, d: &Vec<(String, Json)>, now: i64, zone: Option<&str>) -> (r: Json)
    requires
        time_ok(now as int),
    ensures
        r@ == sub_pair(kind@, jview_fields(d@), now, match zone {
            Some(z) => Some(z@),
            None => None,
        }),
{
    let ghost zv = match zone {
        Some(z) => Some(z@),
        None => None,
    };
    let zh = sub_text_exec(true, kind, d, now, zone);
    let en = sub_text_exec(false, kind, d, now, zone);
    let ghost zs = zh@;
    let ghost es = en@;
    let mut v: Vec<(String, Json)> = Vec::new();
    proof {
        assert(jview_fields(v@) =~= Seq::<(Seq<char>, JsonV)>::empty());
    }
    let zj = Json::Str(zh);
    assert(zj@ == JsonV::Str(zs));
    push_field(&mut v, "zh", zj);
    let ej = Json::Str(en);
    assert(ej@ == JsonV::Str(es));
    push_field(&mut v, "en", ej);
    assert(jview_fields(v@) =~= seq![("zh"@, JsonV::Str(zs)), ("en"@, JsonV::Str(es))]);
    let r = Json::Obj(v);
    assert(r@ == JsonV::Obj(jview_fields(v@)));
    r
}

/// The second line of a state `{kind, detail}` in a resolved time zone.
pub fn sub_line_in_zone(s: &Json, now: i64, zone: Option<&str>) -> (r: Json)
    requires
        time_ok(now as int),
    ensures
        r@ == sub_pair(state_kind(s@), state_detail(s@), now, match zone {
            Some(z) => Some(z@),
            None => None,
        }),
{
    let kind = match s.get("kind") {
        Some(k) => match k.as_str() {
            Some(x) => x,
            None => "offline",
        },
        None => "offline",
    };
    let empty: Vec<(String, Json)> = Vec::new();
    proof {
        assert(jview_fields(empty@) =~= Seq::<(Seq<char>, JsonV)>::empty());
    }
    match s.get("detail") {
        Some(Json::Obj(d)) => sub_pair_exec(kind, d, now, zone),
        _ => sub_pair_exec(kind, &empty, now, zone),
    }
}

/// The zone to judge local dates in: the given one, or the machine's when none or empty is given.
pub fn resolve_zone(tz: Option<&str>) -> (r: Option<String>)
    ensures
        (tz matches Some(t) && t@.len() > 0) ==> (r matches Some(z) && z@ == tz.unwrap()@),
{
    match tz {
        Some(t) => if !t.is_empty() {
            return Some(t.to_string());
        },
        None => {},
    }
    system_zone()
}

/// The second line `{zh, en}` of a state `{kind, detail}`. `tz` is an IANA
/// zone name; without one the machine's zone is used.
pub fn sub_line(s: &Json, now: i64, tz: Option<&str>) -> (r: Json)
    requires
        time_ok(now as int),
    ensures
        exists|z: Option<Seq<char>>| r@ == sub_pair(state_kind(s@), state_detail(s@), now, z),
        (tz matches Some(t) && t@.len() > 0) ==> r@ == sub_pair(
            state_kind(s@),
            state_detail(s@),
            now,
            Some(tz.unwrap()@),
        ),
{
    let zone = resolve_zone(tz);
    let r = match &zone {
        Some(z) => sub_line_in_zone(s, now, Some(z.as_str())),
        None => sub_line_in_zone(s, now, None),
    };
    r
}


fn present_exec(d: &Vec<(String, Json)>, k: &str) -> (r: bool)
    ensures
        r == present(jview_fields(d@), k@),
{
    match field_get(d, k) {
        Some(v) => !v.is_null(),
        None => false,
    }
}

fn cache_ok_exec(c: &Json, now: i64) -> (r: bool)
    ensures
        r == cache_ok(c@, now),
{
    let st = c.get("state");
    let kind = match st {
        Some(s) => match s.get("kind") {
            Some(k) => k.as_str(),
            None => None,
        },
        None => None,
    };
    let kind_ok = match kind {
        Some(k) => str_eq(k, "happy") || str_eq(k, "unhappy"),
        None => false,
    };
    let detail_ok = match st {
        Some(s) => match s.get("detail") {
            Some(Json::Obj(_)) => true,
            _ => false,
        },
        None => false,
    };
    let at_ok = match c.get("at") {
        Some(Json::Num(Number::Int(a))) => {
            let diff: i128 = now as i128 - *a as i128;
            -(HOUR as i128) < diff && diff < CACHE_MAX_AGE_MS as i128
        },
        _ => false,
    };
    kind_ok && detail_ok && at_ok
}

fn offline_display_exec() -> (r: Json)
    ensures
        r@ == offline_display(),
{
    let mut sub: Vec<(String, Json)> = Vec::new();
    proof {
        assert(jview_fields(sub@) =~= Seq::<(Seq<char>, JsonV)>::empty());
    }
    push_field(&mut sub, "zh", Json::text("数据不可用"));
    push_field(&mut sub, "en", Json::text("data unavailable"));
    assert(jview_fields(sub@) =~= seq![("zh"@, JsonV::Str("数据不可用"@)), ("en"@, JsonV::Str("data unavailable"@))]);
    let sj = Json::Obj(sub);
    assert(sj@ == JsonV::Obj(jview_fields(sub@)));
    let mut d: Vec<(String, Json)> = Vec::new();
    proof {
        assert(jview_fields(d@) =~= Seq::<(Seq<char>, JsonV)>::empty());
    }
    push_field(&mut d, "sub", sj);
    proof {
        assert(jview_fields(d@) =~= seq![
            ("sub"@, JsonV::Obj(seq![("zh"@, JsonV::Str("数据不可用"@)), ("en"@, JsonV::Str("data unavailable"@))])),
        ]);
    }
    state_json("offline", d)
}

/// The display decision of the daemon in a resolved time zone: `(shown state, cache to keep)`.
pub fn resolve_display_in_zone(
    fresh: Option<&Json>,
    cache: Option<&Json>,
    now: i64,
    zone: Option<&str>,
) -> (r: (Json, Json))
    requires
        time_ok(now as int),
    ensures
        (r.0@, r.1@) == display_in_zone(opt_view(fresh), opt_view(cache), now, match zone {
            Some(z) => Some(z@),
            None => None,
        }),
{
    match fresh {
        Some(f) => {
            let off = match f.get("kind") {
                Some(k) => match k.as_str() {
                    Some(x) => str_eq(x, "offline"),
                    None => false,
                },
                None => false,
            };
            if !off {
                let mut st: Vec<(String, Json)> = Vec::new();
                proof {
                    assert(jview_fields(st@) =~= Seq::<(Seq<char>, JsonV)>::empty());
                }
                push_field(&mut st, "state", f.deep_copy());
                push_field(&mut st, "at", Json::Num(Number::Int(now)));
                proof {
                    assert(jview_fields(st@) =~= seq![("state"@, f@), ("at"@, JsonV::Num(Number::Int(now)))]);
                }
                let keep = Json::Obj(st);
                assert(keep@ == JsonV::Obj(jview_fields(st@)));
                return (f.deep_copy(), keep);
            }
        },
        None => {},
    }
    let c = match cache {
        Some(c) => if cache_ok_exec(c, now) {
            c
        } else {
            return (offline_display_exec(), c.deep_copy());
        },
        None => return (offline_display_exec(), Json::Null),
    };
    let s = match c.get("state") {
        Some(x) => x.deep_copy(),
        None => Json::Null,
    };
    let dj = match s.get("detail") {
        Some(x) => x.deep_copy(),
        None => Json::Null,
    };
    let d: Vec<(String, Json)> = match dj {
        Json::Obj(v) => v,
        _ => {
            let e: Vec<(String, Json)> = Vec::new();
            proof {
                assert(jview_fields(e@) =~= Seq::<(Seq<char>, JsonV)>::empty());
            }
            e
        },
    };
    assert(jview_fields(d@) == state_detail(s@));
    let last = parse_ms_exec(field_get(&d, "lastResetISO"));
    let sig = present_exec(&d, "scheduledISO") || present_exec(&d, "windowEnd") || present_exec(
        &d,
        "targetStart",
    ) || present_exec(&d, "teaseTier") || present_exec(&d, "confirmed");
    if !sig && last.is_none() {
        return (s, c.deep_copy());
    }
    let ghost d0 = jview_fields(d@);
    let mut d2 = d;
    match last {
        Some(l) => obj_set(&mut d2, "daysSince", days_since_exec(l, now)),
        None => {},
    }
    assert(jview_fields(d2@) == refreshed_detail(d0, now));
    let kind: &str = if sig {
        match s.get("kind") {
            Some(k) => match k.as_str() {
                Some(x) => x,
                None => "unhappy",
            },
            None => "unhappy",
        }
    } else {
        match last {
            Some(l) => if now - l > UNHAPPY_AFTER_DAYS * DAY {
                "unhappy"
            } else {
                "happy"
            },
            None => "unhappy",
        }
    };
    assert(kind@ == cached_kind(s@, d0, now));
    let sub = sub_pair_exec(kind, &d2, now, zone);
    obj_set(&mut d2, "sub", sub);
    (state_json(kind, d2), c.deep_copy())
}

/// The daemon's display decision: fresh data beats a cache of under 12 hours,
/// which beats OFFLINE. Returns the state to show and the cache to keep.
/// `tz` is an IANA zone name for the second line; without one the machine's zone is used.
pub fn resolve_display(fresh: Option<&Json>, cache: Option<&Json>, now: i64, tz: Option<&str>) -> (r: (
    Json,
    Json,
))
    requires
        time_ok(now as int),
    ensures
        exists|z: Option<Seq<char>>| (r.0@, r.1@) == display_in_zone(opt_view(fresh), opt_view(cache), now, z),
        (tz matches Some(t) && t@.len() > 0) ==> (r.0@, r.1@) == display_in_zone(
            opt_view(fresh),
            opt_view(cache),
            now,
            Some(tz.unwrap()@),
        ),
{
    let zone = resolve_zone(tz);
    match &zone {
        Some(z) => resolve_display_in_zone(fresh, cache, now, Some(z.as_str())),
        None => resolve_display_in_zone(fresh, cache, now, None),
    }
}

} // verus!
