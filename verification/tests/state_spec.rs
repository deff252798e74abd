// Scenario tests of the state derivation, the second line, the display
// decision and the betteropc page reader. "Now" is 2026-09-20T12:00:00Z (a
// Sunday); time zones are passed explicitly.
use is_tibo_happy::json::Json;
use is_tibo_happy::num::Number;
use serde_json::Value;
use is_tibo_happy::target::resolve_target_exec;

fn v<T: Clone + Into<Value>>(x: &T) -> Value {
    x.clone().into()
}

fn obj(fields: Vec<(&str, Value)>) -> Value {
    Value::Object(fields.into_iter().map(|(k, x)| (k.to_string(), x)).collect())
}


// ── JSON values between serde_json and the library's model ──

fn float_number(f: f64) -> Number {
    if f == 0.0 {
        return Number::Int(0);
    }
    let bits = f.to_bits();
    let neg = bits >> 63 == 1;
    let e = ((bits >> 52) & 0x7ff) as i32;
    let frac = (bits & ((1u64 << 52) - 1)) as i64;
    let (m, x) = if e == 0 { (frac, -1074) } else { (frac | (1i64 << 52), e - 1075) };
    Number::Float { mant: if neg { -m } else { m }, exp: x }
}

fn to_json(v: &Value) -> Json {
    match v {
        Value::Null => Json::Null,
        Value::Bool(b) => Json::Bool(*b),
        Value::Number(n) => match n.as_i64() {
            Some(i) => Json::Num(Number::Int(i)),
            None => Json::Num(float_number(n.as_f64().unwrap())),
        },
        Value::String(s) => Json::Str(s.clone()),
        Value::Array(a) => Json::Arr(a.iter().map(to_json).collect()),
        Value::Object(o) => Json::Obj(o.iter().map(|(k, x)| (k.clone(), to_json(x))).collect()),
    }
}

fn from_json(j: &Json) -> Value {
    match j {
        Json::Null => Value::Null,
        Json::Bool(b) => Value::Bool(*b),
        Json::Num(Number::Int(i)) => v(&(*i)),
        Json::Num(Number::Float { mant, exp }) => v(&((*mant as f64) * 2f64.powi(*exp))),
        Json::Num(Number::Ratio { num, den }) => v(&(*num as f64 / *den as f64)),
        Json::Str(s) => Value::String(s.clone()),
        Json::Arr(a) => Value::Array(a.iter().map(from_json).collect()),
        Json::Obj(o) => Value::Object(o.iter().map(|(k, x)| (k.clone(), from_json(x))).collect()),
    }
}

// ── the library's calls on serde_json values ──

fn derive(j: &Value, now: i64) -> Value {
    from_json(&is_tibo_happy::resets::derive(&to_json(j), now))
}

fn derive_forecast(j: &Value, now: i64) -> Value {
    from_json(&is_tibo_happy::forecast::derive_forecast(&to_json(j), now))
}

fn derive_state(j: &Value, now: i64) -> Value {
    from_json(&is_tibo_happy::resets::derive_state(&to_json(j), now))
}

fn sub_line(s: &Value, now: i64, tz: Option<&str>) -> Value {
    from_json(&is_tibo_happy::display::sub_line(&to_json(s), now, tz))
}

fn resolve_display(fresh: Option<&Value>, cache: Option<&Value>, now: i64, tz: Option<&str>) -> (Value, Value) {
    let f = fresh.map(to_json);
    let c = cache.map(to_json);
    let (s, k) = is_tibo_happy::display::resolve_display(f.as_ref(), c.as_ref(), now, tz);
    (from_json(&s), from_json(&k))
}

fn parse_betteropc(html: &str) -> Option<Value> {
    is_tibo_happy::betteropc::parse_betteropc(html).map(|j| from_json(&j))
}

fn parse_iso_pub(s: &str) -> Option<i64> {
    is_tibo_happy::time::parse_iso_pub(s)
}

fn iso_pub(ms: i64) -> String {
    is_tibo_happy::time::iso_pub(ms)
}


const H: i64 = 3600_000;
const D: i64 = 86400_000;

fn ms(s: &str) -> i64 {
    parse_iso_pub(s).unwrap()
}
fn iso(ms: i64) -> String {
    iso_pub(ms)
}
const NOW_MS: i64 = 1789905600000;

const SH: &str = "Asia/Shanghai";
const LA: &str = "America/Los_Angeles";
const UTC: &str = "UTC";
const NZ: &str = "Pacific/Auckland";

const LAST: &str = "2026-09-12T08:09:17.000Z";
fn window() -> Value {
    obj(vec![("start_hour", Value::from(23i64)), ("end_hour", Value::from(2i64)), ("label", Value::from("11 PM - 2 AM")), ("timezone", Value::from("UTC"))])
}
fn tease(quote: Value, at: &str, expires: Value) -> Value {
    obj(vec![("tier", Value::from("T1")), ("post", obj(vec![("at", v(&(at))), ("quote", v(&(quote))), ("url", Value::from("https://x.com/x/status/1"))])), ("expires_at", v(&(expires)))])
}
fn tease_default(quote: Value) -> Value {
    tease(
        quote,
        "2026-09-19T16:48:38.000Z",
        Value::from("2026-09-21T16:48:38.000Z"),
    )
}

fn run(j: &Value, tz: &str, now: i64) -> Value {
    let s = derive(j, now);
    let sub = sub_line(&s, now, Some(tz));
    obj(vec![("kind", v(&(s["kind"]))), ("zh", v(&(sub["zh"]))), ("en", v(&(sub["en"])))])
}

#[test]
fn tease_tuesday_local_weekday_differs_by_timezone() {
    let j = obj(vec![("last_reset_at", v(&(LAST))), ("tease_signal", v(&(tease_default(Value::from("OK fine. But it’s also still coming in Tuesday"))))), ("time_window", v(&(window())))]);
    assert_eq!(
        run(&j, SH, NOW_MS),
        obj(vec![("kind", Value::from("happy")), ("zh", Value::from("预计周三重置")), ("en", Value::from("reset expected Wednesday"))])
    );
    assert_eq!(
        run(&j, LA, NOW_MS),
        obj(vec![("kind", Value::from("happy")), ("zh", Value::from("预计周二重置")), ("en", Value::from("reset expected Tuesday"))])
    );
    assert_eq!(
        run(&j, UTC, NOW_MS),
        obj(vec![("kind", Value::from("happy")), ("zh", Value::from("预计周二重置")), ("en", Value::from("reset expected Tuesday"))])
    );
    assert_eq!(
        run(&j, NZ, NOW_MS),
        obj(vec![("kind", Value::from("happy")), ("zh", Value::from("预计周三重置")), ("en", Value::from("reset expected Wednesday"))])
    );
}

#[test]
fn tease_tuesday_without_time_window_default_23utc() {
    let j =
        obj(vec![("last_reset_at", v(&(LAST))), ("tease_signal", v(&(tease_default(Value::from("coming in Tuesday")))))]);
    assert_eq!(
        run(&j, SH, NOW_MS),
        obj(vec![("kind", Value::from("happy")), ("zh", Value::from("预计周三重置")), ("en", Value::from("reset expected Wednesday"))])
    );
}

#[test]
fn tease_today_posted_this_morning() {
    let j = obj(vec![("last_reset_at", v(&(LAST))), ("tease_signal", v(&(tease(Value::from("reset coming today"), "2026-09-20T10:00:00Z", Value::from("2026-09-22T10:00:00Z"))))), ("time_window", v(&(window())))]);
    assert_eq!(
        run(&j, UTC, NOW_MS),
        obj(vec![("kind", Value::from("happy")), ("zh", Value::from("预计今天重置")), ("en", Value::from("reset expected today"))])
    );
    assert_eq!(
        run(&j, SH, NOW_MS),
        obj(vec![("kind", Value::from("happy")), ("zh", Value::from("预计明天重置")), ("en", Value::from("reset expected tomorrow"))])
    );
}

#[test]
fn tease_tomorrow_post_date_plus_1() {
    let j = obj(vec![("last_reset_at", v(&(LAST))), ("tease_signal", v(&(tease(Value::from("tomorrow for sure"), "2026-09-20T10:00:00Z", Value::from("2026-09-22T10:00:00Z"))))), ("time_window", v(&(window())))]);
    assert_eq!(
        run(&j, UTC, NOW_MS),
        obj(vec![("kind", Value::from("happy")), ("zh", Value::from("预计明天重置")), ("en", Value::from("reset expected tomorrow"))])
    );
    assert_eq!(
        run(&j, SH, NOW_MS),
        obj(vec![("kind", Value::from("happy")), ("zh", Value::from("预计周二重置")), ("en", Value::from("reset expected Tuesday"))])
    );
}

#[test]
fn post_at_pt_monday_evening_tomorrow_is_pt_tuesday() {
    let now = ms("2026-09-22T01:00:00Z");
    let j = obj(vec![("last_reset_at", v(&(LAST))), ("tease_signal", v(&(tease(Value::from("tomorrow!"), "2026-09-22T00:30:00Z", Value::from("2026-09-24T00:00:00Z"))))), ("time_window", v(&(window())))]);
    assert_eq!(
        run(&j, LA, now),
        obj(vec![("kind", Value::from("happy")), ("zh", Value::from("预计明天重置")), ("en", Value::from("reset expected tomorrow"))])
    );
    assert_eq!(
        run(&j, UTC, now),
        obj(vec![("kind", Value::from("happy")), ("zh", Value::from("预计今天重置")), ("en", Value::from("reset expected today"))])
    );
}

#[test]
fn post_at_pt_tuesday_evening_tuesday_is_same_pt_tuesday() {
    let now = ms("2026-09-23T01:00:00Z");
    let j = obj(vec![("last_reset_at", v(&(LAST))), ("tease_signal", v(&(tease(Value::from("coming in Tuesday"), "2026-09-23T00:30:00Z", Value::from("2026-09-25T00:00:00Z"))))), ("time_window", v(&(window())))]);
    assert_eq!(
        run(&j, LA, now),
        obj(vec![("kind", Value::from("happy")), ("zh", Value::from("即将重置")), ("en", Value::from("reset imminent"))])
    );
    assert_eq!(
        run(&j, SH, now),
        obj(vec![("kind", Value::from("happy")), ("zh", Value::from("即将重置")), ("en", Value::from("reset imminent"))])
    );
}

#[test]
fn tease_post_beyond_window_plus_grace_is_stale() {
    let now = ms("2026-09-25T12:00:00Z");
    let j = obj(vec![("last_reset_at", v(&(LAST))), ("tease_signal", v(&(tease(Value::from("coming in Tuesday"), "2026-09-19T16:48:38Z", Value::Null))))]);
    assert_eq!(run(&j, UTC, now)["kind"], "unhappy");
    let fresh = obj(vec![("last_reset_at", v(&(LAST))), ("tease_signal", v(&(tease(Value::from("coming in Friday"), "2026-09-23T16:48:38Z", Value::Null))))]);
    assert_eq!(run(&fresh, UTC, now)["kind"], "happy");
}

#[test]
fn explicit_expires_at_beats_72h_default() {
    let now = ms("2026-09-23T12:00:00Z");
    let j = obj(vec![("last_reset_at", v(&(LAST))), ("tease_signal", v(&(tease(Value::from("soon™"), "2026-09-19T16:48:38Z", Value::from("2026-09-24T00:00:00Z")))))]);
    assert_eq!(
        run(&j, UTC, now),
        obj(vec![("kind", Value::from("happy")), ("zh", Value::from("有重置暗示")), ("en", Value::from("reset hinted"))])
    );
}

#[test]
fn weekend_tonight_resolve_never_throw() {
    let j = |w: &str| obj(vec![("last_reset_at", v(&(LAST))), ("tease_signal", v(&(tease(v(&(w)), "2026-09-20T10:00:00Z", Value::from("2026-09-27T00:00:00Z"))))), ("time_window", v(&(window())))]);
    assert_eq!(
        run(&j("this weekend"), UTC, NOW_MS),
        obj(vec![("kind", Value::from("happy")), ("zh", Value::from("预计周六重置")), ("en", Value::from("reset expected Saturday"))])
    );
    assert_eq!(
        run(&j("tonight probably"), UTC, NOW_MS),
        obj(vec![("kind", Value::from("happy")), ("zh", Value::from("预计今天重置")), ("en", Value::from("reset expected today"))])
    );
}

#[test]
fn invalid_tz_degrades_to_hinted() {
    let j = obj(vec![("last_reset_at", v(&(LAST))), ("tease_signal", v(&(tease_default(Value::from("coming in Tuesday"))))), ("time_window", v(&(window())))]);
    assert_eq!(
        run(&j, "Mars/Olympus", NOW_MS),
        obj(vec![("kind", Value::from("happy")), ("zh", Value::from("有重置暗示")), ("en", Value::from("reset hinted"))])
    );
}

#[test]
fn detail_carries_no_volatile_timestamp() {
    let j = obj(vec![("last_reset_at", v(&(LAST))), ("tease_signal", v(&(tease_default(Value::from("coming in Tuesday"))))), ("time_window", v(&(window())))]);
    assert_eq!(derive(&j, NOW_MS), derive(&j, NOW_MS + 60_000));
}

#[test]
fn expired_tease_ignored_after_grace() {
    let now = ms("2026-09-24T15:00:00Z");
    let j = obj(vec![("last_reset_at", v(&(LAST))), ("tease_signal", v(&(tease_default(Value::from("coming in Tuesday"))))), ("time_window", v(&(window())))]);
    assert_eq!(
        run(&j, UTC, now),
        obj(vec![("kind", Value::from("unhappy")), ("zh", Value::from("暂无重置预告")), ("en", Value::from("no reset news"))])
    );
}

#[test]
fn tease_live_window_passed_imminent() {
    let now = ms("2026-09-23T12:00:00Z");
    let j = obj(vec![("last_reset_at", v(&(LAST))), ("tease_signal", v(&(tease(Value::from("coming in Tuesday"), "2026-09-19T16:48:38Z", Value::from("2026-09-24T00:00:00Z"))))), ("time_window", v(&(window())))]);
    assert_eq!(
        run(&j, UTC, now),
        obj(vec![("kind", Value::from("happy")), ("zh", Value::from("即将重置")), ("en", Value::from("reset imminent"))])
    );
}

#[test]
fn tease_unparseable_quote_hinted() {
    let j = obj(vec![("last_reset_at", v(&(LAST))), ("tease_signal", v(&(tease_default(Value::from("soon™")))))]);
    assert_eq!(
        run(&j, UTC, NOW_MS),
        obj(vec![("kind", Value::from("happy")), ("zh", Value::from("有重置暗示")), ("en", Value::from("reset hinted"))])
    );
}

#[test]
fn expires_at_past_dies_only_without_other_reasons() {
    let live = obj(vec![("last_reset_at", v(&(LAST))), ("tease_signal", v(&(tease(Value::from("coming in Tuesday"), "2026-09-19T16:48:38Z", v(&(iso(NOW_MS)))))))]);
    assert_eq!(run(&live, UTC, NOW_MS)["kind"], "happy");
    let dead = obj(vec![("last_reset_at", v(&(LAST))), ("tease_signal", v(&(tease(Value::from("soon™"), "2026-09-15T16:48:38Z", v(&(iso(NOW_MS - H)))))))]);
    assert_eq!(run(&dead, UTC, NOW_MS)["kind"], "unhappy");
}

#[test]
fn dropped_tease_signal_but_latest_hint_fresh() {
    let j = obj(vec![("last_reset_at", v(&(LAST))), ("latest_hint", obj(vec![("id", Value::from("x")), ("at", Value::from("2026-09-19T16:48:38.000Z")), ("url", Value::from("https://x.com/x/1")), ("quote", Value::from("OK fine. But it’s also still coming in Tuesday")), ("day", Value::Null)])), ("time_window", v(&(window())))]);
    let now = ms("2026-09-22T02:00:00Z");
    assert_eq!(
        run(&j, UTC, now),
        obj(vec![("kind", Value::from("happy")), ("zh", Value::from("预计今天重置")), ("en", Value::from("reset expected today"))])
    );
    assert_eq!(
        run(&j, SH, now),
        obj(vec![("kind", Value::from("happy")), ("zh", Value::from("预计明天重置")), ("en", Value::from("reset expected tomorrow"))])
    );
}

#[test]
fn hint_window_passed_within_grace_imminent() {
    let j = obj(vec![("last_reset_at", v(&(LAST))), ("latest_hint", obj(vec![("at", Value::from("2026-09-19T16:48:38.000Z")), ("quote", Value::from("coming in Tuesday"))])), ("time_window", v(&(window())))]);
    let now = ms("2026-09-23T12:00:00Z");
    assert_eq!(
        run(&j, UTC, now),
        obj(vec![("kind", Value::from("happy")), ("zh", Value::from("即将重置")), ("en", Value::from("reset imminent"))])
    );
}

#[test]
fn hint_fully_stale_unhappy() {
    let j = obj(vec![("last_reset_at", v(&(LAST))), ("latest_hint", obj(vec![("at", Value::from("2026-09-19T16:48:38.000Z")), ("quote", Value::from("coming in Tuesday"))])), ("time_window", v(&(window())))]);
    let now = ms("2026-09-24T15:00:00Z");
    assert_eq!(
        run(&j, UTC, now),
        obj(vec![("kind", Value::from("unhappy")), ("zh", Value::from("暂无重置预告")), ("en", Value::from("no reset news"))])
    );
}

#[test]
fn hint_unparseable_quote_not_signal() {
    let j = obj(vec![("last_reset_at", v(&(LAST))), ("latest_hint", obj(vec![("at", Value::from("2026-09-19T16:48:38.000Z")), ("quote", Value::from("hmm interesting"))]))]);
    assert_eq!(run(&j, UTC, NOW_MS)["kind"], "unhappy");
}

#[test]
fn hint_older_than_7d_ignored() {
    let j = obj(vec![("last_reset_at", v(&(LAST))), ("latest_hint", obj(vec![("at", Value::from("2026-09-10T16:48:38.000Z")), ("quote", Value::from("coming in Tuesday"))]))]);
    assert_eq!(run(&j, UTC, NOW_MS)["kind"], "unhappy");
}

#[test]
fn reset_landed_after_tease_fulfilled() {
    let j = obj(vec![("last_reset_at", Value::from("2026-09-22T23:30:00.000Z")), ("tease_signal", v(&(tease(Value::from("coming in Tuesday"), "2026-09-19T16:48:38Z", Value::from("2026-09-25T00:00:00Z"))))), ("time_window", v(&(window())))]);
    let now = ms("2026-09-23T01:00:00Z");
    assert_eq!(
        run(&j, UTC, now),
        obj(vec![("kind", Value::from("happy")), ("zh", Value::from("刚刚重置")), ("en", Value::from("just reset"))])
    );
}

#[test]
fn tease_posted_after_last_reset_live() {
    let j = obj(vec![("last_reset_at", Value::from("2026-09-18T08:00:00Z")), ("tease_signal", v(&(tease_default(Value::from("coming in Tuesday"))))), ("time_window", v(&(window())))]);
    assert_eq!(
        run(&j, LA, NOW_MS),
        obj(vec![("kind", Value::from("happy")), ("zh", Value::from("预计周二重置")), ("en", Value::from("reset expected Tuesday"))])
    );
}

#[test]
fn resets_scheduled_for_overdue_within_grace_imminent() {
    let j = obj(vec![("scheduled", obj(vec![("scheduled_for", v(&(iso(NOW_MS - 8 * H)))), ("display_text", Value::from("x")), ("announced_at", v(&(iso(NOW_MS - 2 * D))))])), ("events", Value::Array(vec![obj(vec![("announced_at", v(&(LAST)))])]))]);
    assert_eq!(
        run(&j, UTC, NOW_MS),
        obj(vec![("kind", Value::from("happy")), ("zh", Value::from("即将重置")), ("en", Value::from("reset imminent"))])
    );
    let done = obj(vec![("scheduled", obj(vec![("scheduled_for", Value::from("2026-09-19T23:00:00Z")), ("display_text", Value::from("x")), ("announced_at", Value::from("2026-09-18T00:00:00Z"))])), ("events", Value::Array(vec![obj(vec![("announced_at", Value::from("2026-09-20T01:00:00Z"))])]))]);
    assert_eq!(
        run(&done, UTC, NOW_MS),
        obj(vec![("kind", Value::from("happy")), ("zh", Value::from("刚刚重置")), ("en", Value::from("just reset"))])
    );
}

#[test]
fn commitment_countdown_granularity() {
    let c =
        |t: i64| obj(vec![("last_reset_at", v(&(LAST))), ("commitment", obj(vec![("scheduled_for", v(&(iso(NOW_MS + t))))]))]);
    assert_eq!(
        run(&c((6.2 * D as f64) as i64), UTC, NOW_MS),
        obj(vec![("kind", Value::from("happy")), ("zh", Value::from("6 天后重置")), ("en", Value::from("reset in 6 days"))])
    );
    assert_eq!(
        run(&c((1.4 * D as f64) as i64), UTC, NOW_MS),
        obj(vec![("kind", Value::from("happy")), ("zh", Value::from("34 小时后重置")), ("en", Value::from("reset in ~34h"))])
    );
    assert_eq!(
        run(&c(3 * H), UTC, NOW_MS),
        obj(vec![("kind", Value::from("happy")), ("zh", Value::from("3 小时后重置")), ("en", Value::from("reset in ~3h"))])
    );
    assert_eq!(
        run(&c(30 * 60_000), UTC, NOW_MS),
        obj(vec![("kind", Value::from("happy")), ("zh", Value::from("即将重置")), ("en", Value::from("reset imminent"))])
    );
    assert_eq!(
        run(&c(D), UTC, NOW_MS),
        obj(vec![("kind", Value::from("happy")), ("zh", Value::from("24 小时后重置")), ("en", Value::from("reset in ~24h"))])
    );
    assert_eq!(
        run(&c(2 * D), UTC, NOW_MS),
        obj(vec![("kind", Value::from("happy")), ("zh", Value::from("2 天后重置")), ("en", Value::from("reset in 2 days"))])
    );
    assert_eq!(
        run(&c(D + D / 2), UTC, NOW_MS),
        obj(vec![("kind", Value::from("happy")), ("zh", Value::from("36 小时后重置")), ("en", Value::from("reset in ~36h"))])
    );
}

#[test]
fn commitment_just_passed_imminent_long_passed_still_imminent() {
    let c =
        |t: i64| obj(vec![("last_reset_at", v(&(LAST))), ("commitment", obj(vec![("scheduled_for", v(&(iso(NOW_MS + t))))]))]);
    assert_eq!(
        run(&c(-60_000), UTC, NOW_MS),
        obj(vec![("kind", Value::from("happy")), ("zh", Value::from("即将重置")), ("en", Value::from("reset imminent"))])
    );
    assert_eq!(
        run(&c(-7 * H), UTC, NOW_MS),
        obj(vec![("kind", Value::from("happy")), ("zh", Value::from("即将重置")), ("en", Value::from("reset imminent"))])
    );
}

#[test]
fn commitment_overdue_beyond_grace_stale() {
    let j = obj(vec![("last_reset_at", v(&(LAST))), ("commitment", obj(vec![("scheduled_for", v(&(iso(NOW_MS - 2 * D))))]))]);
    assert_eq!(
        run(&j, UTC, NOW_MS),
        obj(vec![("kind", Value::from("unhappy")), ("zh", Value::from("暂无重置预告")), ("en", Value::from("no reset news"))])
    );
}

#[test]
fn commitment_beats_tease() {
    let j = obj(vec![("last_reset_at", v(&(LAST))), ("commitment", obj(vec![("scheduled_for", v(&(iso(NOW_MS + 5 * D))))])), ("tease_signal", v(&(tease_default(Value::from("coming in Tuesday")))))]);
    assert_eq!(
        run(&j, UTC, NOW_MS),
        obj(vec![("kind", Value::from("happy")), ("zh", Value::from("5 天后重置")), ("en", Value::from("reset in 5 days"))])
    );
}

#[test]
fn commitment_without_anchor_not_signal() {
    let j = obj(vec![("last_reset_at", v(&(LAST))), ("commitment", obj(vec![("text", Value::from("reset coming eventually"))]))]);
    assert_eq!(run(&j, UTC, NOW_MS)["kind"], "unhappy");
    assert_eq!(run(&j, UTC, NOW_MS + 90 * D)["kind"], "unhappy");
}

#[test]
fn official_signal_no_post_time_no_reanchor() {
    let j = obj(vec![("last_reset_at", v(&(LAST))), ("official_signal", obj(vec![("text", Value::from("by Tuesday"))]))]);
    assert_eq!(run(&j, UTC, NOW_MS)["kind"], "unhappy");
    assert_eq!(run(&j, UTC, NOW_MS + 90 * D)["kind"], "unhappy");
}

#[test]
fn official_signal_with_posted_at_anchors() {
    let j = obj(vec![("last_reset_at", v(&(LAST))), ("official_signal", obj(vec![("text", Value::from("by Tuesday")), ("posted_at", Value::from("2026-09-19T16:48:38.000Z"))])), ("time_window", v(&(window())))]);
    assert_eq!(
        run(&j, LA, NOW_MS),
        obj(vec![("kind", Value::from("happy")), ("zh", Value::from("预计周二重置")), ("en", Value::from("reset expected Tuesday"))])
    );
    let old = obj(vec![("last_reset_at", v(&(LAST))), ("official_signal", obj(vec![("text", Value::from("by Tuesday")), ("posted_at", Value::from("2026-09-10T16:48:38.000Z"))]))]);
    assert_eq!(run(&old, UTC, NOW_MS)["kind"], "unhappy");
}

#[test]
fn non_string_quote_display_text_never_throws() {
    let j = obj(vec![("last_reset_at", v(&(LAST))), ("tease_signal", v(&(tease_default(Value::from(42i64)))))]);
    assert_eq!(
        run(&j, UTC, NOW_MS),
        obj(vec![("kind", Value::from("happy")), ("zh", Value::from("有重置暗示")), ("en", Value::from("reset hinted"))])
    );
    let hint = obj(vec![("last_reset_at", v(&(LAST))), ("latest_hint", obj(vec![("at", Value::from("2026-09-19T16:48:38.000Z")), ("quote", obj(vec![("text", Value::from("x"))]))]))]);
    assert_eq!(run(&hint, UTC, NOW_MS)["kind"], "unhappy");
    let r = obj(vec![("scheduled", obj(vec![("display_text", obj(vec![("text", Value::from("soon"))])), ("announced_at", Value::from("2026-09-19T16:48:38.000Z"))])), ("events", Value::Array(vec![obj(vec![("announced_at", v(&(LAST)))])]))]);
    assert_eq!(run(&r, UTC, NOW_MS)["kind"], "unhappy");
}

#[test]
fn teased_window_end_by_local_weekday() {
    let j = obj(vec![("last_reset_at", v(&(LAST))), ("official_signal", obj(vec![("text", Value::from("by Tuesday"))])), ("teased_window", obj(vec![("start", Value::from("2026-09-22T23:00:00Z")), ("end", Value::from("2026-09-23T02:00:00Z"))]))]);
    assert_eq!(
        run(&j, LA, NOW_MS),
        obj(vec![("kind", Value::from("happy")), ("zh", Value::from("最晚周二重置")), ("en", Value::from("reset by Tuesday"))])
    );
    assert_eq!(
        run(&j, SH, NOW_MS),
        obj(vec![("kind", Value::from("happy")), ("zh", Value::from("最晚周三重置")), ("en", Value::from("reset by Wednesday"))])
    );
}

#[test]
fn teased_window_alone_counts_overdue_imminent() {
    let j = obj(vec![("last_reset_at", v(&(LAST))), ("teased_window", obj(vec![("start", Value::from("2026-09-22T23:00:00Z")), ("end", Value::from("2026-09-23T02:00:00Z"))]))]);
    assert_eq!(
        run(&j, LA, NOW_MS),
        obj(vec![("kind", Value::from("happy")), ("zh", Value::from("最晚周二重置")), ("en", Value::from("reset by Tuesday"))])
    );
    let late = ms("2026-09-24T12:00:00Z");
    assert_eq!(
        run(&j, LA, late),
        obj(vec![("kind", Value::from("happy")), ("zh", Value::from("即将重置")), ("en", Value::from("reset imminent"))])
    );
    let dead = ms("2026-09-25T12:00:00Z");
    assert_eq!(run(&j, LA, dead)["kind"], "unhappy");
}

#[test]
fn teased_window_malformed_dropped_anchorless_not_signal() {
    let j = obj(vec![("last_reset_at", v(&(LAST))), ("official_signal", obj(vec![("text", Value::from("by Tuesday"))])), ("teased_window", obj(vec![("start", Value::from("2026-09-23T02:00:00Z")), ("end", Value::from("2026-09-22T23:00:00Z"))]))]);
    assert_eq!(
        run(&j, UTC, NOW_MS),
        obj(vec![("kind", Value::from("unhappy")), ("zh", Value::from("暂无重置预告")), ("en", Value::from("no reset news"))])
    );
}

#[test]
fn ledger_recent_happy_over_3d_unhappy() {
    let l = |d: f64| obj(vec![("last_reset_at", v(&(iso(NOW_MS - (d * D as f64) as i64))))]);
    assert_eq!(
        run(&l(0.5), UTC, NOW_MS),
        obj(vec![("kind", Value::from("happy")), ("zh", Value::from("刚刚重置")), ("en", Value::from("just reset"))])
    );
    assert_eq!(
        run(&l(2.1), UTC, NOW_MS),
        obj(vec![("kind", Value::from("happy")), ("zh", Value::from("上次重置 2 天前")), ("en", Value::from("last reset 2d ago"))])
    );
    assert_eq!(
        run(&l(3.0), UTC, NOW_MS),
        obj(vec![("kind", Value::from("happy")), ("zh", Value::from("上次重置 3 天前")), ("en", Value::from("last reset 3d ago"))])
    );
    assert_eq!(
        run(&l(3.01), UTC, NOW_MS),
        obj(vec![("kind", Value::from("unhappy")), ("zh", Value::from("暂无重置预告")), ("en", Value::from("no reset news"))])
    );
    assert_eq!(
        run(&l(30.0), UTC, NOW_MS),
        obj(vec![("kind", Value::from("unhappy")), ("zh", Value::from("暂无重置预告")), ("en", Value::from("no reset news"))])
    );
}

#[test]
fn ledger_future_last_reset_just_reset() {
    assert_eq!(
        run(&obj(vec![("last_reset_at", v(&(iso(NOW_MS + D))))]), UTC, NOW_MS),
        obj(vec![("kind", Value::from("happy")), ("zh", Value::from("刚刚重置")), ("en", Value::from("just reset"))])
    );
}

#[test]
fn garbage_upstream_never_throws() {
    assert_eq!(derive(&Value::Null, NOW_MS)["kind"], "offline");
    assert_eq!(
        derive(&Value::from("<html>cloudflare</html>"), NOW_MS)["kind"],
        "offline"
    );
    assert_eq!(derive(&Value::Array(vec![]), NOW_MS)["kind"], "offline");
    assert_eq!(derive(&Value::from(42i64), NOW_MS)["kind"], "offline");
    assert_eq!(
        run(&obj(vec![]), UTC, NOW_MS),
        obj(vec![("kind", Value::from("unhappy")), ("zh", Value::from("暂无重置预告")), ("en", Value::from("no reset news"))])
    );
    assert_eq!(
        run(&obj(vec![("last_reset_at", Value::from("garbage"))]), UTC, NOW_MS),
        obj(vec![("kind", Value::from("unhappy")), ("zh", Value::from("暂无重置预告")), ("en", Value::from("no reset news"))])
    );
    assert_eq!(
        run(&obj(vec![("age_days", Value::from("8"))]), UTC, NOW_MS)["kind"],
        "unhappy"
    );
    assert_eq!(
        run(
            &obj(vec![("last_reset_at", v(&(LAST))), ("tease_signal", Value::from("not-an-object"))]),
            UTC,
            NOW_MS
        )["kind"],
        "unhappy"
    );
    assert_eq!(
        run(
            &obj(vec![("last_reset_at", v(&(LAST))), ("tease_signal", obj(vec![("post", Value::Null)]))]),
            UTC,
            NOW_MS
        )["kind"],
        "unhappy"
    );
    assert_eq!(
        run(
            &obj(vec![("last_reset_at", v(&(LAST))), ("commitment", Value::from("yes"))]),
            UTC,
            NOW_MS
        )["kind"],
        "unhappy"
    );
    assert_eq!(
        run(
            &obj(vec![("last_reset_at", v(&(LAST))), ("time_window", obj(vec![("start_hour", Value::from("x"))])), ("tease_signal", v(&(tease_default(Value::from("coming in Tuesday")))))]),
            SH,
            NOW_MS
        )["zh"],
        "预计周三重置"
    );
    assert_eq!(
        sub_line(&obj(vec![("kind", Value::from("offline")), ("detail", obj(vec![]))]), NOW_MS, None)["zh"],
        "数据不可用"
    );
}

#[test]
fn resets_scheduled_tease_localized_weekday() {
    let j = obj(vec![("scheduled", obj(vec![("display_text", Value::from("@udi OK fine. But it’s also still coming in Tuesday")), ("announced_at", Value::from("2026-09-19T16:48:38.000Z")), ("scheduled_for", Value::Null), ("reset_type", Value::from("banked"))])), ("events", Value::Array(vec![obj(vec![("announced_at", v(&(LAST))), ("reset_type", Value::from("regular"))])]))]);
    assert_eq!(
        run(&j, LA, NOW_MS),
        obj(vec![("kind", Value::from("happy")), ("zh", Value::from("预计周二重置")), ("en", Value::from("reset expected Tuesday"))])
    );
    assert_eq!(
        run(&j, SH, NOW_MS),
        obj(vec![("kind", Value::from("happy")), ("zh", Value::from("预计周三重置")), ("en", Value::from("reset expected Wednesday"))])
    );
}

#[test]
fn resets_scheduled_for_exact_countdown() {
    let j = obj(vec![("scheduled", obj(vec![("scheduled_for", v(&(iso(NOW_MS + 4 * D)))), ("display_text", Value::from("x"))])), ("events", Value::Array(vec![]))]);
    assert_eq!(
        run(&j, UTC, NOW_MS),
        obj(vec![("kind", Value::from("happy")), ("zh", Value::from("4 天后重置")), ("en", Value::from("reset in 4 days"))])
    );
}

#[test]
fn resets_bare_string_scheduled() {
    assert_eq!(
        run(
            &obj(vec![("scheduled", Value::from("2026-09-25T23:00:00.000Z")), ("events", Value::Array(vec![obj(vec![("announced_at", v(&(LAST)))])]))]),
            UTC,
            NOW_MS
        ),
        obj(vec![("kind", Value::from("happy")), ("zh", Value::from("5 天后重置")), ("en", Value::from("reset in 5 days"))])
    );
    assert_eq!(
        run(
            &obj(vec![("scheduled", Value::from("coming Tuesday")), ("events", Value::Array(vec![obj(vec![("announced_at", v(&(LAST)))])]))]),
            UTC,
            NOW_MS
        )["kind"],
        "unhappy"
    );
    assert_eq!(
        run(
            &obj(vec![("scheduled", Value::from("2026-09-15T23:00:00.000Z")), ("events", Value::Array(vec![obj(vec![("announced_at", v(&(LAST)))])]))]),
            UTC,
            NOW_MS
        )["kind"],
        "unhappy"
    );
}

#[test]
fn resets_stale_scheduled_ignored() {
    let now = ms("2026-09-25T12:00:00Z");
    let j = obj(vec![("scheduled", obj(vec![("display_text", Value::from("coming in Tuesday")), ("announced_at", Value::from("2026-09-19T16:48:38.000Z")), ("scheduled_for", Value::Null)])), ("events", Value::Array(vec![obj(vec![("announced_at", v(&(LAST)))])]))]);
    assert_eq!(
        run(&j, UTC, now),
        obj(vec![("kind", Value::from("unhappy")), ("zh", Value::from("暂无重置预告")), ("en", Value::from("no reset news"))])
    );
}

#[test]
fn resets_ledger_rules_match_forecast() {
    assert_eq!(
        run(
            &obj(vec![("events", Value::Array(vec![obj(vec![("announced_at", v(&(iso(NOW_MS - D))))])]))]),
            UTC,
            NOW_MS
        ),
        obj(vec![("kind", Value::from("happy")), ("zh", Value::from("上次重置 1 天前")), ("en", Value::from("last reset 1d ago"))])
    );
    assert_eq!(
        run(
            &obj(vec![("events", Value::Array(vec![obj(vec![("announced_at", v(&(iso(NOW_MS - D / 2)))), ("reset_type", Value::from("banked"))])]))]),
            UTC,
            NOW_MS
        ),
        obj(vec![("kind", Value::from("happy")), ("zh", Value::from("刚发了重置卡")), ("en", Value::from("card just issued"))])
    );
    assert_eq!(
        run(
            &obj(vec![("events", Value::Array(vec![obj(vec![("announced_at", v(&(iso(NOW_MS - 2 * D)))), ("reset_type", Value::from("banked"))])]))]),
            UTC,
            NOW_MS
        ),
        obj(vec![("kind", Value::from("happy")), ("zh", Value::from("上次发卡 2 天前")), ("en", Value::from("card issued 2d ago"))])
    );
    assert_eq!(
        run(
            &obj(vec![("events", Value::Array(vec![obj(vec![("announced_at", v(&(iso(NOW_MS - D / 2)))), ("reset_type", Value::from("regular"))])]))]),
            UTC,
            NOW_MS
        ),
        obj(vec![("kind", Value::from("happy")), ("zh", Value::from("用量刚重置")), ("en", Value::from("usage just reset"))])
    );
    assert_eq!(
        run(
            &obj(vec![("events", Value::Array(vec![obj(vec![("announced_at", v(&(iso(NOW_MS - D)))), ("reset_type", Value::from("regular"))])]))]),
            UTC,
            NOW_MS
        ),
        obj(vec![("kind", Value::from("happy")), ("zh", Value::from("用量 1 天前重置")), ("en", Value::from("usage reset 1d ago"))])
    );
    assert_eq!(
        run(
            &obj(vec![("events", Value::Array(vec![obj(vec![("announced_at", v(&(iso(NOW_MS - D)))), ("reset_type", Value::from("weird"))])]))]),
            UTC,
            NOW_MS
        ),
        obj(vec![("kind", Value::from("happy")), ("zh", Value::from("上次重置 1 天前")), ("en", Value::from("last reset 1d ago"))])
    );
    assert_eq!(
        run(
            &obj(vec![("events", Value::Array(vec![obj(vec![("announced_at", v(&(iso(NOW_MS - 3 * D)))), ("reset_type", Value::from("banked"))]), obj(vec![("announced_at", v(&(iso(NOW_MS - D / 2)))), ("reset_type", Value::from("regular"))])]))]),
            UTC,
            NOW_MS
        ),
        obj(vec![("kind", Value::from("happy")), ("zh", Value::from("用量刚重置")), ("en", Value::from("usage just reset"))])
    );
    assert_eq!(
        run(&obj(vec![("events", Value::Array(vec![obj(vec![("announced_at", v(&(LAST)))])]))]), UTC, NOW_MS),
        obj(vec![("kind", Value::from("unhappy")), ("zh", Value::from("暂无重置预告")), ("en", Value::from("no reset news"))])
    );
    assert_eq!(
        run(&obj(vec![("events", Value::Array(vec![]))]), UTC, NOW_MS),
        obj(vec![("kind", Value::from("unhappy")), ("zh", Value::from("暂无重置预告")), ("en", Value::from("no reset news"))])
    );
    assert_eq!(
        run(&obj(vec![("events", Value::Array(vec![obj(vec![("announced_at", Value::from("bad"))])]))]), UTC, NOW_MS),
        obj(vec![("kind", Value::from("unhappy")), ("zh", Value::from("暂无重置预告")), ("en", Value::from("no reset news"))])
    );
}

#[test]
fn derive_dispatches_on_shape() {
    assert_eq!(
        derive_forecast(&obj(vec![("last_reset_at", v(&(LAST)))]), NOW_MS)["kind"],
        "unhappy"
    );
    assert_eq!(
        derive_state(&obj(vec![("events", Value::Array(vec![obj(vec![("announced_at", v(&(LAST)))])]))]), NOW_MS)["kind"],
        "unhappy"
    );
    assert_eq!(derive(&obj(vec![("events", Value::Array(vec![]))]), NOW_MS)["kind"], "unhappy");
    assert_eq!(
        derive(&obj(vec![("last_reset_at", v(&(LAST)))]), NOW_MS)["kind"],
        "unhappy"
    );
}

#[test]
fn sub_line_never_throws_on_partial_detail() {
    for kind in ["happy", "unhappy", "offline"] {
        let o = sub_line(&obj(vec![("kind", v(&(kind))), ("detail", obj(vec![]))]), NOW_MS, None);
        assert!(o["zh"].as_str().is_some_and(|s| !s.is_empty()));
        assert!(o["en"].as_str().is_some_and(|s| !s.is_empty()));
    }
}

#[test]
fn resolve_fresh_wins_becomes_cache() {
    let fresh = obj(vec![("kind", Value::from("happy")), ("detail", obj(vec![("sub", obj(vec![("zh", Value::from("a")), ("en", Value::from("a"))]))]))]);
    let cache = obj(vec![("state", obj(vec![("kind", Value::from("unhappy")), ("detail", obj(vec![]))])), ("at", v(&(NOW_MS - H)))]);
    let (s, c) = resolve_display(Some(&fresh), Some(&cache), NOW_MS, None);
    assert_eq!(s, fresh);
    assert_eq!(c, obj(vec![("state", v(&(fresh))), ("at", v(&(NOW_MS)))]));
}

#[test]
fn resolve_fetch_failed_fresh_cache_kept() {
    let cached = obj(vec![("kind", Value::from("happy")), ("detail", obj(vec![("sub", obj(vec![("zh", Value::from("预计周三重置")), ("en", Value::from("x"))]))]))]);
    let cache = obj(vec![("state", v(&(cached))), ("at", v(&(NOW_MS - (11.9 * H as f64) as i64)))]);
    let (s, c) = resolve_display(None, Some(&cache), NOW_MS, None);
    assert_eq!(s, cached);
    assert_eq!(c, cache);
}

#[test]
fn resolve_stale_or_absent_cache_offline() {
    let cached = obj(vec![("kind", Value::from("happy")), ("detail", obj(vec![]))]);
    assert_eq!(
        resolve_display(
            None,
            Some(&obj(vec![("state", v(&(cached))), ("at", v(&(NOW_MS - 12 * H)))])),
            NOW_MS,
            None
        )
        .0["kind"],
        "offline"
    );
    assert_eq!(
        resolve_display(None, None, NOW_MS, None).0["kind"],
        "offline"
    );
    assert_eq!(
        resolve_display(
            None,
            Some(&obj(vec![("state", v(&(cached))), ("at", Value::from("garbage"))])),
            NOW_MS,
            None
        )
        .0["kind"],
        "offline"
    );
    assert_eq!(
        resolve_display(
            None,
            Some(&obj(vec![("state", Value::from("nope")), ("at", v(&(NOW_MS)))])),
            NOW_MS,
            None
        )
        .0["kind"],
        "offline"
    );
    let (o, _) = resolve_display(None, None, NOW_MS, None);
    assert_eq!(
        o["detail"]["sub"],
        obj(vec![("zh", Value::from("数据不可用")), ("en", Value::from("data unavailable"))])
    );
}

#[test]
fn resolve_cached_offline_never_kept() {
    let cache = obj(vec![("state", obj(vec![("kind", Value::from("offline")), ("detail", obj(vec![]))])), ("at", v(&(NOW_MS)))]);
    assert_eq!(
        resolve_display(None, Some(&cache), NOW_MS, None).0["kind"],
        "offline"
    );
}

#[test]
fn resolve_bad_at_rejected() {
    let good = obj(vec![("kind", Value::from("happy")), ("detail", obj(vec![("sub", obj(vec![("zh", Value::from("x")), ("en", Value::from("x"))]))]))]);
    assert_eq!(
        resolve_display(
            None,
            Some(&obj(vec![("state", v(&(good))), ("at", v(&((NOW_MS - H).to_string())))])),
            NOW_MS,
            None
        )
        .0["kind"],
        "offline"
    );
    assert_eq!(
        resolve_display(
            None,
            Some(&obj(vec![("state", v(&(good))), ("at", v(&(f64::NAN)))])),
            NOW_MS,
            None
        )
        .0["kind"],
        "offline"
    );
    assert_eq!(
        resolve_display(None, Some(&obj(vec![("state", v(&(good)))])), NOW_MS, None).0["kind"],
        "offline"
    );
    assert_eq!(
        resolve_display(
            None,
            Some(&obj(vec![("state", v(&(good))), ("at", Value::Array(vec![Value::from(1i64), Value::from(2i64)]))])),
            NOW_MS,
            None
        )
        .0["kind"],
        "offline"
    );
}

#[test]
fn resolve_future_at_no_immortality() {
    let good = obj(vec![("kind", Value::from("happy")), ("detail", obj(vec![("sub", obj(vec![("zh", Value::from("x")), ("en", Value::from("x"))]))]))]);
    assert_eq!(
        resolve_display(
            None,
            Some(&obj(vec![("state", v(&(good))), ("at", v(&(NOW_MS + 30 * 60_000)))])),
            NOW_MS,
            None
        )
        .0["kind"],
        "happy"
    );
    assert_eq!(
        resolve_display(
            None,
            Some(&obj(vec![("state", v(&(good))), ("at", v(&(NOW_MS + 72 * H)))])),
            NOW_MS,
            None
        )
        .0["kind"],
        "offline"
    );
}

#[test]
fn resolve_old_kind_waiting_not_kept() {
    let waiting = obj(vec![("state", obj(vec![("kind", Value::from("waiting")), ("detail", obj(vec![("sub", obj(vec![("zh", Value::from("x")), ("en", Value::from("x"))]))]))])), ("at", v(&(NOW_MS - H)))]);
    let nodetail = obj(vec![("state", obj(vec![("kind", Value::from("happy"))])), ("at", v(&(NOW_MS - H)))]);
    assert_eq!(
        resolve_display(None, Some(&waiting), NOW_MS, None).0["kind"],
        "offline"
    );
    assert_eq!(
        resolve_display(None, Some(&nodetail), NOW_MS, None).0["kind"],
        "offline"
    );
}

#[test]
fn resolve_offline_fresh_does_not_overwrite() {
    let good = obj(vec![("kind", Value::from("happy")), ("detail", obj(vec![("sub", obj(vec![("zh", Value::from("x")), ("en", Value::from("x"))]))]))]);
    let cache = obj(vec![("state", v(&(good))), ("at", v(&(NOW_MS - H)))]);
    let (s, c) = resolve_display(
        Some(&obj(vec![("kind", Value::from("offline")), ("detail", obj(vec![]))])),
        Some(&cache),
        NOW_MS,
        None,
    );
    assert_eq!(s["kind"], "happy");
    assert_eq!(c["state"], good);
}

#[test]
fn resolve_cached_state_reworded_for_now() {
    let written = ms("2026-09-21T20:00:00Z");
    let mut s = derive(
        &obj(vec![("last_reset_at", v(&(LAST))), ("tease_signal", v(&(tease(Value::from("coming today"), "2026-09-21T10:00:00Z", Value::from("2026-09-23T00:00:00Z"))))), ("time_window", v(&(window())))]),
        written,
    );
    s["detail"]["sub"] = sub_line(&s, written, Some(UTC));
    assert_eq!(s["detail"]["sub"]["zh"], "预计今天重置");
    let later = ms("2026-09-22T06:00:00Z");
    let cache = obj(vec![("state", v(&(s))), ("at", v(&(written)))]);
    let (r, _) = resolve_display(None, Some(&cache), later, Some(UTC));
    assert_eq!(r["kind"], "happy");
    assert_eq!(r["detail"]["sub"]["zh"], "即将重置");
    let mut l = derive(
        &obj(vec![("last_reset_at", v(&(iso(NOW_MS - (2.5 * D as f64) as i64))))]),
        NOW_MS,
    );
    l["detail"]["sub"] = sub_line(&l, NOW_MS, None);
    let cache = obj(vec![("state", v(&(l))), ("at", v(&(NOW_MS)))]);
    assert_eq!(
        resolve_display(None, Some(&cache), NOW_MS + 10 * H, None).0["detail"]["sub"]["zh"],
        "上次重置 2 天前"
    );
}

struct Bp {
    pid: &'static str,
    today: &'static str,
    last: &'static str,
    card: bool,
    status: &'static str,
    sf: &'static str,
    pa: &'static str,
}
impl Default for Bp {
    fn default() -> Self {
        Bp {
            pid: "codex",
            today: "none",
            last: "2026-09-12T08:09:17.000Z",
            card: true,
            status: "scheduled",
            sf: "2026-09-22T07:00:00.000Z",
            pa: "2026-09-19T16:48:38.000Z",
        }
    }
}
fn bp(o: Bp) -> String {
    format!(
        "<!doctype html><html><head><title>Codex 重置信号监控</title></head><body>
<div class=\"product-tracking-card\" data-product-id=\"{}\"><div class=\"product-tracking-reset-overview-row\"><span data-reset-today-status=\"{}\" data-reset-today-date=\"2026-09-22\" data-product-updated-at=\"2026-09-22T02:08:25.309Z\">今日无重置</span>
<time class=\"product-tracking-last-confirmed-reset\" dateTime=\"{}\"></time></div>
{}
<script>self.__next_f.push([1,\"{{\\\"targetIso\\\":\\\"{}\\\",\\\"publishedAtIso\\\":\\\"{}\\\"}}\"])</script>
</body></html>",
        o.pid,
        o.today,
        o.last,
        if o.card {
            format!("<li class=\"product-tracking-scheduled-reset\"><span data-signal-reset-status=\"{}\">已排期</span><a href=\"https://x.com/thsottiaux/status/2101352781219258527\"></a></li>", o.status)
        } else {
            String::new()
        },
        o.sf,
        o.pa,
    )
}
fn run_bp(o: Bp, tz: &str, now: i64) -> Value {
    let s = derive(&parse_betteropc(&bp(o)).unwrap_or(Value::Null), now);
    let sub = sub_line(&s, now, Some(tz));
    obj(vec![("kind", v(&(s["kind"]))), ("zh", v(&(sub["zh"]))), ("en", v(&(sub["en"])))])
}

#[test]
fn betteropc_parses_dom_and_rsc() {
    let p = parse_betteropc(&bp(Bp::default())).unwrap();
    assert_eq!(p["source"], "betteropc");
    assert_eq!(p["last_reset_at"], "2026-09-12T08:09:17.000Z");
    assert_eq!(p["updated_at"], "2026-09-22T02:08:25.309Z");
    assert_eq!(p["today"], obj(vec![("status", Value::from("none")), ("date", Value::from("2026-09-22"))]));
    assert_eq!(p["commitment"]["scheduled_for"], "2026-09-22T07:00:00.000Z");
    assert_eq!(p["commitment"]["posted_at"], "2026-09-19T16:48:38.000Z");
    assert_eq!(
        p["commitment"]["url"],
        "https://x.com/thsottiaux/status/2101352781219258527"
    );
}

#[test]
fn betteropc_0700z_is_today_for_mainland_china() {
    let now = ms("2026-09-22T04:00:00Z");
    assert_eq!(
        run_bp(Bp::default(), SH, now),
        obj(vec![("kind", Value::from("happy")), ("zh", Value::from("3 小时后重置")), ("en", Value::from("reset in ~3h"))])
    );
    assert_eq!(
        run_bp(Bp::default(), SH, ms("2026-09-22T08:00:00Z")),
        obj(vec![("kind", Value::from("happy")), ("zh", Value::from("即将重置")), ("en", Value::from("reset imminent"))])
    );
    assert_eq!(
        run_bp(Bp::default(), SH, ms("2026-09-22T20:00:00Z")),
        obj(vec![("kind", Value::from("happy")), ("zh", Value::from("即将重置")), ("en", Value::from("reset imminent"))])
    );
}

#[test]
fn betteropc_scheduled_for_stale_falls_to_ledger() {
    let now = ms("2026-09-24T12:00:00Z");
    assert_eq!(
        run_bp(Bp::default(), UTC, now),
        obj(vec![("kind", Value::from("unhappy")), ("zh", Value::from("暂无重置预告")), ("en", Value::from("no reset news"))])
    );
}

#[test]
fn betteropc_reset_landed_fulfilled() {
    let now = ms("2026-09-22T08:00:00Z");
    let s = derive(
        &parse_betteropc(&bp(Bp {
            last: "2026-09-22T07:05:00.000Z",
            ..Default::default()
        }))
        .unwrap(),
        now,
    );
    assert_eq!(s["kind"], "happy");
    assert_eq!(
        sub_line(&s, now, Some(SH)),
        obj(vec![("zh", Value::from("刚刚重置")), ("en", Value::from("just reset"))])
    );
}

#[test]
fn betteropc_terminal_status_not_signal() {
    for status in [
        "executed",
        "cancelled",
        "missed",
        "done",
        "已取消",
        "已执行",
        "已重置",
    ] {
        let now = ms("2026-09-22T04:00:00Z");
        assert_eq!(
            run_bp(
                Bp {
                    status,
                    ..Default::default()
                },
                UTC,
                now
            )["kind"],
            "unhappy",
            "status={status}"
        );
    }
}

#[test]
fn betteropc_no_card_ledger_only() {
    let now = ms("2026-09-22T04:00:00Z");
    assert_eq!(
        run_bp(
            Bp {
                card: false,
                ..Default::default()
            },
            UTC,
            now
        )["kind"],
        "unhappy"
    );
    assert_eq!(
        run_bp(
            Bp {
                card: false,
                last: "2026-09-22T02:00:00.000Z",
                ..Default::default()
            },
            UTC,
            now
        ),
        obj(vec![("kind", Value::from("happy")), ("zh", Value::from("刚刚重置")), ("en", Value::from("just reset"))])
    );
    assert_eq!(
        run_bp(
            Bp {
                sf: "not-a-date",
                ..Default::default()
            },
            UTC,
            now
        ),
        obj(vec![("kind", Value::from("happy")), ("zh", Value::from("已预告重置")), ("en", Value::from("reset announced"))])
    );
    assert_eq!(
        run_bp(
            Bp {
                sf: "not-a-date",
                pa: "",
                ..Default::default()
            },
            UTC,
            now
        )["kind"],
        "unhappy"
    );
    assert_eq!(
        run_bp(
            Bp {
                pa: "",
                ..Default::default()
            },
            UTC,
            now
        )["kind"],
        "happy"
    );
}

#[test]
fn betteropc_garbage_null_never_throws() {
    assert!(parse_betteropc("<html>just a moment</html>").is_none());
    assert!(parse_betteropc("").is_none());
    assert!(parse_betteropc("{}").is_none());
    assert!(parse_betteropc(&bp(Bp {
        pid: "cursor-agent",
        ..Default::default()
    }))
    .is_none());
    let tampered = bp(Bp::default()).replacen("data-product-id", "data-x-product-id", 1)
        + "<p>Codex 与 Cursor Agent 对比</p>";
    assert!(parse_betteropc(&tampered).is_none());
    let shell = "<div class=\"product-tracking-x\" data-product-id=\"codex\" data-reset-today-status=\"none\"></div>";
    assert!(parse_betteropc(shell).is_none());
    let bad = parse_betteropc(&bp(Bp {
        pa: "",
        last: "garbage",
        ..Default::default()
    }))
    .unwrap();
    assert!(bad["commitment"]["posted_at"].is_null());
    assert!(bad["last_reset_at"].is_null());
}

#[test]
fn betteropc_props_order_drift_no_neighbour_steal() {
    let reordered = "<div class=\"product-tracking-card\" data-product-id=\"codex\">\
        \"dateTime\":\"2026-09-12T08:09:17.000Z\",\"className\":\"product-tracking-last-confirmed-reset\"\
        <div class=\"product-tracking-x\"><time dateTime=\"2026-09-20T00:00:00.000Z\"></time></div>";
    assert_eq!(
        parse_betteropc(reordered).unwrap()["last_reset_at"],
        "2026-09-12T08:09:17.000Z"
    );
}

#[test]
fn betteropc_cjk_at_slice_boundaries_no_panic() {
    for pad in 0..4usize {
        let x = "x".repeat(pad);
        let cjk = "重置预告更新中".repeat(30);
        let wall = "重置预告更新中".repeat(1200);
        let html = format!(
            "<div class=\"product-tracking-x\" data-product-id=\"codex\">{x}\
             \"dateTime\":\"2026-09-12T08:09:17.000Z\"{cjk}\
             \"className\":\"product-tracking-last-confirmed-reset\"{cjk}\
             \"dateTime\":\"2026-09-12T08:09:17.000Z\"\
             <li class=\"product-tracking-scheduled-reset\">\
             \"targetIso\":\"2026-09-22T07:00:00.000Z\",\"publishedAtIso\":\"2026-09-19T16:48:38.000Z\"\
             <span data-signal-reset-status=\"scheduled\"></span>{wall}",
        );
        let p = parse_betteropc(&html).expect("parse must not panic");
        assert_eq!(
            p["commitment"]["scheduled_for"], "2026-09-22T07:00:00.000Z",
            "pad={pad}"
        );
        assert_eq!(p["last_reset_at"], "2026-09-12T08:09:17.000Z", "pad={pad}");
    }
}

#[test]
fn falsy_fields_fall_back_like_js_or() {
    let j = obj(vec![("last_reset_at", v(&(LAST))), ("commitment", Value::Null), ("official_signal", obj(vec![("scheduled_for", Value::from("2026-09-25T23:00:00.000Z")), ("posted_at", Value::from("2026-09-19T16:48:38.000Z"))]))]);
    assert_eq!(derive(&j, NOW_MS)["kind"], "happy");

    let j = obj(vec![("last_reset_at", v(&(LAST))), ("commitment", obj(vec![("scheduled_for", Value::from("")), ("time", Value::from("2026-09-25T23:00:00.000Z")), ("posted_at", Value::from("")), ("announced_at", Value::from("2026-09-19T16:48:38.000Z"))]))]);
    let s = derive(&j, NOW_MS);
    assert_eq!(s["kind"], "happy");
    assert_eq!(s["detail"]["scheduledISO"], "2026-09-25T23:00:00.000Z");

    for bad in [Value::from(""), Value::Bool(false), Value::from(0i64)] {
        let j = obj(vec![("last_reset_at", v(&(LAST))), ("commitment", v(&(bad))), ("official_signal", obj(vec![("scheduled_for", Value::from("2026-09-25T23:00:00.000Z")), ("posted_at", Value::from("2026-09-19T16:48:38.000Z"))]))]);
        assert_eq!(derive(&j, NOW_MS)["kind"], "happy", "commitment={bad}");
    }
}

#[test]
fn loose_iso_minute_precision_and_offsets() {
    assert_eq!(ms("2026-10-01T00:00Z"), ms("2026-10-01T00:00:00.000Z"));
    assert_eq!(ms("2026-10-01T08:00+08:00"), ms("2026-10-01T00:00:00.000Z"));
    assert_eq!(ms("2026-10-01T08:00+0800"), ms("2026-10-01T00:00:00.000Z"));
    assert!(parse_iso_pub("2026-10-01T00:00").is_some());
    let j = obj(vec![("events", Value::Array(vec![])), ("scheduled", Value::from("2026-09-25T23:00Z"))]);
    assert_eq!(derive(&j, NOW_MS)["kind"], "happy");
}

#[test]
fn fractional_time_window_hour_not_truncated() {
    let j = obj(vec![("last_reset_at", v(&(LAST))), ("tease_signal", v(&(tease_default(Value::from("coming in Tuesday"))))), ("time_window", obj(vec![("start_hour", Value::from(22.5_f64)), ("end_hour", Value::from(2.5_f64)), ("timezone", Value::from("UTC"))]))]);
    let s = derive(&j, NOW_MS);
    assert_eq!(s["detail"]["targetStart"], iso(ms("2026-09-22T22:30:00Z")));
    assert_eq!(s["detail"]["targetEnd"], iso(ms("2026-09-23T02:30:00Z")));
    let j = obj(vec![("last_reset_at", v(&(LAST))), ("tease_signal", v(&(tease_default(Value::from("coming in Tuesday"))))), ("time_window", obj(vec![("start_hour", Value::from(23.9_f64)), ("end_hour", Value::from(2.5_f64)), ("timezone", Value::from("UTC"))]))]);
    assert_eq!(
        derive(&j, NOW_MS)["detail"]["targetStart"],
        iso(ms("2026-09-22T23:00:00Z"))
    );
}

#[test]
fn betteropc_product_id_any_case() {
    let p = parse_betteropc(&bp(Bp {
        pid: "CoDeX",
        ..Default::default()
    }))
    .unwrap();
    assert_eq!(p["source"], "betteropc");
    assert_eq!(p["last_reset_at"], "2026-09-12T08:09:17.000Z");
}

#[test]
fn betteropc_card_window_is_8000_bytes() {
    let head = "<div class=\"product-tracking-x\" data-product-id=\"codex\"><li class=\"";
    let card = "product-tracking-scheduled-reset\">\"targetIso\":\"2026-09-22T07:00:00.000Z\"";
    let pad = "x".repeat((8000 - card.len()) % 3);
    let link = "<a href=\"https://x.com/thsottiaux/status/2101352781219258527\"></a>";
    for (n, found) in [(2000usize, true), (2700, false)] {
        let html = format!("{head}{card}{pad}{}{link}", "中".repeat(n));
        let p = parse_betteropc(&html).unwrap();
        assert_eq!(p["commitment"]["scheduled_for"], "2026-09-22T07:00:00.000Z");
        let url = &p["commitment"]["url"];
        if found {
            assert_eq!(url, "https://x.com/thsottiaux/status/2101352781219258527", "n={n}");
        } else {
            assert!(url.is_null(), "n={n}");
        }
    }
}

#[test]
fn weekday_search_from_before_chrono_range() {
    let now = -9_000_000_000_000_000i64;
    let tue = Json::Str("coming Tuesday".to_string());
    let t = resolve_target_exec(&tue, None, None, now).unwrap();
    assert_eq!((t.start, t.end), (-8_334_600_685_200_000, -8_334_600_674_400_000));
    let sun = Json::Str("coming Sunday".to_string());
    let t = resolve_target_exec(&sun, None, None, now).unwrap();
    assert_eq!((t.start, t.end), (-8_999_999_917_200_000, -8_999_999_906_400_000));
}

#[test]
fn derivation_takes_far_instants() {
    let now = 9_000_000_000_000_000i64;
    for j in [Value::Null, Value::from(42)] {
        assert_eq!(derive(&j, now)["kind"], "offline");
    }
    let j = obj(vec![("last_reset_at", Value::from("2026-09-12T08:09:17.000Z"))]);
    assert_eq!(derive(&j, now)["kind"], "unhappy");
    let f = obj(vec![("kind", Value::from("happy")), ("detail", obj(vec![]))]);
    let (s, c) = resolve_display(Some(&f), None, now, Some("UTC"));
    assert_eq!(s, f);
    assert_eq!(c["at"], now);
    let s = obj(vec![("kind", Value::from("happy")), ("detail", obj(vec![("scheduledISO", Value::from("2026-09-12T08:09:17.000Z"))]))]);
    assert_eq!(sub_line(&s, now, Some("UTC"))["en"], "reset imminent");
}

#[test]
fn iso_text_shape_and_unrepresentable_instants() {
    let t = iso(0);
    assert_eq!(t, "1970-01-01T00:00:00.000Z");
    assert_eq!(iso(253_402_300_799_999), "9999-12-31T23:59:59.999Z");
    assert_eq!(iso(-62_167_219_200_000).len(), 24);
    assert_eq!(iso(i64::MAX), "");
    assert_eq!(iso(i64::MIN), "");
}
