//! Deriving the card state `{kind, detail}` from upstream JSON.
//!
//! `kind` is `happy` (a live reset signal, or a reset within the last three
//! days), `unhappy` (more than three days and no signal) or `offline` (the
//! upstream is not a JSON object). Two upstream shapes are read: the forecast
//! shape (`commitment`, `tease_signal`, `latest_hint`, `teased_window`,
//! `last_reset_at`) and the resets shape (`scheduled`, `events`).
use vstd::prelude::*;
use crate::fields::{Fields, opt_field, push_field, push_opt_json, push_opt_text, state_json, state_v, text_field};
use crate::json::{
    Json, JsonV, as_str, first_text, first_text_exec, first_truthy, first_truthy_exec, get,
    is_obj, jview_fields, oas_str, oget, opt_view, truthy,
};
use crate::num::Number;
use crate::target::{Target, resolve_target, resolve_target_exec};
use crate::time::{DAY, HOUR, parsed_range, iso_pub, iso_text, parse_iso, parse_iso_pub, parse_ms, parse_ms_exec, time_ok};

verus! {

broadcast use vstd::string::group_string_axioms;

/// Grace after a signal's window before it counts as missed (36 hours).
pub const LATE_GRACE: i64 = 129_600_000;

/// A signal posted more than 7 days ago is stale.
pub const SIG_MAX_AGE: i64 = 604_800_000;

/// A reset within this many days keeps the card happy.
pub const UNHAPPY_AFTER_DAYS: i64 = 3;

/// A signal posted before the latest reset has been fulfilled.
pub open spec fn fulfilled(last: Option<i64>, at: Option<i64>) -> bool {
    match (at, last) {
        (Some(a), Some(l)) => a < l,
        _ => false,
    }
}

/// A window is still live until its end plus the late grace.
pub open spec fn window_fresh(t: Option<(int, int)>, now: i64) -> bool {
    match t {
        Some((_, e)) => now < e + LATE_GRACE,
        None => false,
    }
}

pub open spec fn iso_v(ms: int) -> JsonV {
    JsonV::Str(iso_text(ms as i64))
}

/// `targetStart`/`targetEnd` for a resolved window.
pub open spec fn target_fields(t: Option<(int, int)>) -> Fields {
    match t {
        Some((s, e)) => seq![("targetStart"@, iso_v(s)), ("targetEnd"@, iso_v(e))],
        None => Seq::empty(),
    }
}

/// A window object with parseable `start` and `end`, `end` after `start`:
/// its two raw values and their instants.
pub open spec fn valid_window(win: Option<JsonV>) -> Option<(JsonV, JsonV, i64, i64)> {
    match (oget(win, "start"@), oget(win, "end"@)) {
        (Some(s), Some(e)) => match (parse_ms(Some(s)), parse_ms(Some(e))) {
            (Some(sm), Some(em)) => if em > sm {
                Some((s, e, sm, em))
            } else {
                None
            },
            _ => None,
        },
        _ => None,
    }
}

/// `windowStart`/`windowEnd` for a valid window.
pub open spec fn window_fields(win: Option<JsonV>) -> Fields {
    match valid_window(win) {
        Some((s, e, _, _)) => seq![("windowStart"@, s), ("windowEnd"@, e)],
        None => Seq::empty(),
    }
}

/// JavaScript `a || b` on two optional values.
pub open spec fn or_truthy(a: Option<JsonV>, b: Option<JsonV>) -> Option<JsonV> {
    match a {
        Some(x) if truthy(x) => Some(x),
        _ => match b {
            Some(y) if truthy(y) => Some(y),
            _ => None,
        },
    }
}

pub open spec fn text_or_null(s: Option<Seq<char>>) -> JsonV {
    match s {
        Some(t) => JsonV::Str(t),
        None => JsonV::Null,
    }
}

pub open spec fn or_null(v: Option<JsonV>) -> JsonV {
    match v {
        Some(x) => x,
        None => JsonV::Null,
    }
}

// ── 1. commitment / official_signal ──

/// The detail of a commitment-level signal.
pub open spec fn commit_detail(api: JsonV, c: JsonV, now: i64) -> Fields {
    let sched = first_text(Some(c), seq!["scheduled_for"@, "time"@]);
    let tease = first_text(Some(c), seq!["text"@, "quote"@, "display_text"@]);
    let url = first_text(Some(c), seq!["url"@, "tweet_url"@]);
    let win = or_truthy(get(api, "teased_window"@), get(c, "window"@));
    let post_at = commit_post_at(c);
    let tgt = match post_at {
        Some(p) => resolve_target(text_or_null(tease), Some(p), get(api, "time_window"@), now),
        None => None,
    };
    seq![("confirmed"@, JsonV::Bool(true))] + text_field("scheduledISO"@, sched) + text_field(
        "teaseText"@,
        tease,
    ) + text_field("tweetUrl"@, url) + window_fields(win) + target_fields(tgt)
}

pub open spec fn commit_post_at(c: JsonV) -> Option<i64> {
    parse_ms(first_truthy(Some(c), seq!["posted_at"@, "announced_at"@, "at"@]))
}

/// A commitment counts while it has a time anchor (a scheduled time, a live
/// window, or a post within 7 days), is not past its scheduled time plus the
/// grace, and was not fulfilled by a later reset.
pub open spec fn commit_live(api: JsonV, c: JsonV, last: Option<i64>, now: i64) -> bool {
    let sched = first_text(Some(c), seq!["scheduled_for"@, "time"@]);
    let sf = match sched {
        Some(s) => parse_iso(s),
        None => None,
    };
    let win = or_truthy(get(api, "teased_window"@), get(c, "window"@));
    let we = match valid_window(win) {
        Some((_, _, _, e)) => Some(e),
        None => None,
    };
    let post_at = commit_post_at(c);
    let anchored = sf is Some || (we matches Some(w) && w + LATE_GRACE > now) || (
    post_at matches Some(p) && now - p < SIG_MAX_AGE);
    let stale = sf matches Some(s) && s + LATE_GRACE <= now;
    let at = match post_at {
        Some(p) => Some(p),
        None => sf,
    };
    anchored && !stale && !fulfilled(last, at)
}

// ── 2. tease_signal ──

pub open spec fn tease_post(api: JsonV) -> Option<JsonV> {
    match oget(get(api, "tease_signal"@), "post"@) {
        Some(p) if is_obj(p) => Some(p),
        _ => None,
    }
}

pub open spec fn tease_target(api: JsonV, tp: i64, now: i64) -> Option<(int, int)> {
    resolve_target(or_null(oget(tease_post(api), "quote"@)), Some(tp), get(api, "time_window"@), now)
}

/// A tease counts when posted within 7 days and not fulfilled, and its upstream
/// expiry is ahead, or it is younger than 72 hours, or its window is still live.
pub open spec fn tease_live(api: JsonV, last: Option<i64>, now: i64) -> bool {
    let t = get(api, "tease_signal"@);
    match (t, tease_post(api), parse_ms(oget(tease_post(api), "at"@))) {
        (Some(tv), Some(p), Some(tp)) => {
            let exp = parse_ms(get(tv, "expires_at"@));
            &&& now - tp < SIG_MAX_AGE
            &&& !fulfilled(last, Some(tp))
            &&& (exp matches Some(e) && e > now) || now - tp < 72 * HOUR || window_fresh(
                tease_target(api, tp, now),
                now,
            )
        },
        _ => false,
    }
}

pub open spec fn tease_detail(api: JsonV, now: i64) -> Fields {
    let p = tease_post(api);
    let tp = parse_ms(oget(p, "at"@))->0;
    text_field("teaseText"@, oas_str(oget(p, "quote"@))) + text_field(
        "tweetUrl"@,
        oas_str(oget(p, "url"@)),
    ) + text_field("teaseTier"@, oas_str(oget(get(api, "tease_signal"@), "tier"@))) + window_fields(
        get(api, "teased_window"@),
    ) + target_fields(tease_target(api, tp, now))
}

// ── 2b. latest_hint ──

pub open spec fn hint_obj(api: JsonV) -> Option<JsonV> {
    match get(api, "latest_hint"@) {
        Some(h) if is_obj(h) => Some(h),
        _ => None,
    }
}

pub open spec fn hint_target(api: JsonV, ha: i64, now: i64) -> Option<(int, int)> {
    resolve_target(or_null(oget(hint_obj(api), "quote"@)), Some(ha), get(api, "time_window"@), now)
}

/// A hint counts when posted within 7 days, not fulfilled, and its quote
/// resolves to a window that is still live.
pub open spec fn hint_live(api: JsonV, last: Option<i64>, now: i64) -> bool {
    match (hint_obj(api), parse_ms(oget(hint_obj(api), "at"@))) {
        (Some(h), Some(ha)) => {
            &&& now - ha < SIG_MAX_AGE
            &&& !fulfilled(last, Some(ha))
            &&& hint_target(api, ha, now) is Some
            &&& window_fresh(hint_target(api, ha, now), now)
        },
        _ => false,
    }
}

pub open spec fn hint_detail(api: JsonV, now: i64) -> Fields {
    let h = hint_obj(api);
    let ha = parse_ms(oget(h, "at"@))->0;
    text_field("teaseText"@, oas_str(oget(h, "quote"@))) + text_field(
        "tweetUrl"@,
        oas_str(oget(h, "url"@)),
    ) + seq![("teaseTier"@, JsonV::Str("hint"@))] + target_fields(hint_target(api, ha, now))
}

// ── 2c. teased_window alone ──

pub open spec fn window_live(api: JsonV, last: Option<i64>, now: i64) -> bool {
    let win = get(api, "teased_window"@);
    match (parse_ms(oget(win, "start"@)), parse_ms(oget(win, "end"@))) {
        (Some(s), Some(e)) => e > s && e + LATE_GRACE > now && !fulfilled(last, Some(s)),
        _ => false,
    }
}

pub open spec fn window_alone_detail(api: JsonV) -> Fields {
    let win = get(api, "teased_window"@);
    seq![("windowStart"@, or_null(oget(win, "start"@))), ("windowEnd"@, or_null(oget(win, "end"@)))]
}

// ── 3. ledger ──

/// Days since the reset, never negative: `max(0, now - last) / DAY`.
pub open spec fn days_since_v(last: i64, now: i64) -> JsonV {
    JsonV::Num(
        Number::Ratio {
            num: if now - last > 0 {
                (now - last) as i64
            } else {
                0
            },
            den: DAY as u32,
        },
    )
}

/// More than three days since the last reset.
pub open spec fn over_three_days(last: i64, now: i64) -> bool {
    now - last > UNHAPPY_AFTER_DAYS * DAY
}

pub open spec fn forecast_ledger(api: JsonV, last: Option<i64>, now: i64) -> JsonV {
    match last {
        None => state_v("unhappy"@, Seq::empty()),
        Some(l) => {
            let detail = seq![
                ("lastResetISO"@, iso_v(l as int)),
                ("daysSince"@, days_since_v(l, now)),
                ("prob48"@, or_null(oget(get(api, "probabilities"@), "rounded_48h"@))),
            ];
            if over_three_days(l, now) {
                state_v("unhappy"@, detail)
            } else {
                state_v("happy"@, detail)
            }
        },
    }
}

/// The state for the forecast shape, signals in priority order.
pub open spec fn forecast_state(api: JsonV, now: i64) -> JsonV {
    if !is_obj(api) {
        state_v("offline"@, Seq::empty())
    } else {
        let last = parse_ms(get(api, "last_reset_at"@));
        let commit = first_truthy(Some(api), seq!["commitment"@, "official_signal"@]);
        if commit matches Some(c) && commit_live(api, c, last, now) {
            state_v("happy"@, commit_detail(api, commit->0, now))
        } else if tease_live(api, last, now) {
            state_v("happy"@, tease_detail(api, now))
        } else if hint_live(api, last, now) {
            state_v("happy"@, hint_detail(api, now))
        } else if window_live(api, last, now) {
            state_v("happy"@, window_alone_detail(api))
        } else {
            forecast_ledger(api, last, now)
        }
    }
}

// ── executable ──

/// Whether a resolved window is still live at `now` (its end plus the late grace lies ahead).
pub fn still_fresh(t: &Option<Target>, now: i64) -> (r: bool)
    requires
        t matches Some(x) ==> x.end <= i64::MAX - LATE_GRACE,
    ensures
        r == window_fresh(
            match t {
                Some(x) => Some((x.start as int, x.end as int)),
                None => None,
            },
            now,
        ),
{
    match t {
        Some(x) => now < x.end + LATE_GRACE,
        None => false,
    }
}

fn target_push(d: &mut Vec<(String, Json)>, t: Option<Target>)
    ensures
        jview_fields(final(d)@) == jview_fields(old(d)@) + target_fields(
            match t {
                Some(x) => Some((x.start as int, x.end as int)),
                None => None,
            },
        ),
{
    match t {
        Some(x) => {
            let ghost d0 = jview_fields(d@);
            push_field(d, "targetStart", Json::Str(iso_pub(x.start)));
            push_field(d, "targetEnd", Json::Str(iso_pub(x.end)));
            assert(jview_fields(d@) =~= d0 + target_fields(Some((x.start as int, x.end as int))));
        },
        None => {
            assert(jview_fields(d@) + Seq::<(Seq<char>, JsonV)>::empty() =~= jview_fields(d@));
        },
    }
}

/// The valid window's end instant, pushing `windowStart`/`windowEnd`.
fn window_push(d: &mut Vec<(String, Json)>, win: Option<&Json>) -> (r: Option<i64>)
    ensures
        jview_fields(final(d)@) == jview_fields(old(d)@) + window_fields(opt_view(win)),
        r == (match valid_window(opt_view(win)) {
            Some((_, _, _, e)) => Some(e),
            None => None,
        }),
        r matches Some(e) ==> parsed_range(e as int),
{
    let s = match win {
        Some(w) => w.get("start"),
        None => None,
    };
    let e = match win {
        Some(w) => w.get("end"),
        None => None,
    };
    match (s, e) {
        (Some(sv), Some(ev)) => {
            let sm = parse_ms_exec(Some(sv));
            let em = parse_ms_exec(Some(ev));
            match (sm, em) {
                (Some(a), Some(b)) => {
                    if b > a {
                        let ghost d0 = jview_fields(d@);
                        push_field(d, "windowStart", sv.deep_copy());
                        push_field(d, "windowEnd", ev.deep_copy());
                        assert(jview_fields(d@) =~= d0 + window_fields(opt_view(win)));
                        return Some(b);
                    }
                },
                _ => {},
            }
        },
        _ => {},
    }
    assert(jview_fields(d@) + Seq::<(Seq<char>, JsonV)>::empty() =~= jview_fields(d@));
    None
}

fn fulfilled_exec(last: Option<i64>, at: Option<i64>) -> (r: bool)
    ensures
        r == fulfilled(last, at),
{
    match (at, last) {
        (Some(a), Some(l)) => a < l,
        _ => false,
    }
}

fn or_truthy_exec<'a>(a: Option<&'a Json>, b: Option<&'a Json>) -> (r: Option<&'a Json>)
    ensures
        opt_view(r) == or_truthy(opt_view(a), opt_view(b)),
{
    match a {
        Some(x) => if x.truthy() {
            return Some(x);
        },
        None => {},
    }
    match b {
        Some(y) => if y.truthy() {
            return Some(y);
        },
        None => {},
    }
    None
}

fn key_list_2(a: &'static str, b: &'static str) -> (r: Vec<&'static str>)
    ensures
        r@.map_values(|k: &str| k@) == seq![a@, b@],
{
    let mut v: Vec<&'static str> = Vec::new();
    v.push(a);
    v.push(b);
    assert(v@.map_values(|k: &str| k@) =~= seq![a@, b@]);
    v
}

fn key_list_3(a: &'static str, b: &'static str, c: &'static str) -> (r: Vec<&'static str>)
    ensures
        r@.map_values(|k: &str| k@) == seq![a@, b@, c@],
{
    let mut v: Vec<&'static str> = Vec::new();
    v.push(a);
    v.push(b);
    v.push(c);
    assert(v@.map_values(|k: &str| k@) =~= seq![a@, b@, c@]);
    v
}

/// The commitment-level signal: its detail when it counts.
fn commit_branch(api: &Json, c: &Json, last: Option<i64>, now: i64) -> (r: Option<Vec<(String, Json)>>)
    requires
        time_ok(now as int),
        is_obj(api@),
        last matches Some(l) ==> parsed_range(l as int),
    ensures
        match r {
            Some(d) => commit_live(api@, c@, last, now) && jview_fields(d@) == commit_detail(api@, c@, now),
            None => !commit_live(api@, c@, last, now),
        },
{
    let k_sched = key_list_2("scheduled_for", "time");
    let k_text = key_list_3("text", "quote", "display_text");
    let k_url = key_list_2("url", "tweet_url");
    let k_post = key_list_3("posted_at", "announced_at", "at");
    let sched = first_text_exec(Some(c), k_sched.as_slice());
    let tease = first_text_exec(Some(c), k_text.as_slice());
    let url = first_text_exec(Some(c), k_url.as_slice());
    let mut d: Vec<(String, Json)> = Vec::new();
    proof {
        assert(jview_fields(d@) =~= Seq::<(Seq<char>, JsonV)>::empty());
    }
    push_field(&mut d, "confirmed", Json::Bool(true));
    push_opt_text(&mut d, "scheduledISO", sched);
    push_opt_text(&mut d, "teaseText", tease);
    push_opt_text(&mut d, "tweetUrl", url);
    let win = or_truthy_exec(api.get("teased_window"), c.get("window"));
    let we = window_push(&mut d, win);
    let post_at = parse_ms_exec(first_truthy_exec(Some(c), k_post.as_slice()));
    let tgt = match post_at {
        Some(p) => {
            let txt = match tease {
                Some(t) => Json::text(t),
                None => Json::Null,
            };
            resolve_target_exec(&txt, Some(p), api.get("time_window"), now)
        },
        None => None,
    };
    target_push(&mut d, tgt);
    let sf = match sched {
        Some(s) => parse_iso_pub(s),
        None => None,
    };
    let anchored = sf.is_some() || (match we {
        Some(w) => w + LATE_GRACE > now,
        None => false,
    }) || (match post_at {
        Some(p) => now - p < SIG_MAX_AGE,
        None => false,
    });
    let stale = match sf {
        Some(s) => s + LATE_GRACE <= now,
        None => false,
    };
    let at = match post_at {
        Some(p) => Some(p),
        None => sf,
    };
    proof {
        let dv = jview_fields(d@);
        assert(dv =~= commit_detail(api@, c@, now));
    }
    if anchored && !stale && !fulfilled_exec(last, at) {
        Some(d)
    } else {
        None
    }
}

fn tease_branch(api: &Json, last: Option<i64>, now: i64) -> (r: Option<Vec<(String, Json)>>)
    requires
        time_ok(now as int),
        is_obj(api@),
    ensures
        match r {
            Some(d) => tease_live(api@, last, now) && jview_fields(d@) == tease_detail(api@, now),
            None => !tease_live(api@, last, now),
        },
{
    let t = match api.get("tease_signal") {
        Some(t) => t,
        None => return None,
    };
    let p = match t.get("post") {
        Some(p) => if p.is_object() {
            p
        } else {
            return None;
        },
        None => return None,
    };
    let tp = match parse_ms_exec(p.get("at")) {
        Some(x) => x,
        None => return None,
    };
    if !(now - tp < SIG_MAX_AGE) || fulfilled_exec(last, Some(tp)) {
        return None;
    }
    let exp = parse_ms_exec(t.get("expires_at"));
    let null = Json::Null;
    let quote = match p.get("quote") {
        Some(q) => q,
        None => &null,
    };
    let tt = resolve_target_exec(quote, Some(tp), api.get("time_window"), now);
    let exp_live = match exp {
        Some(e) => e > now,
        None => false,
    };
    let fresh = still_fresh(&tt, now);
    if !(exp_live || now - tp < 72 * HOUR || fresh) {
        return None;
    }
    let mut d: Vec<(String, Json)> = Vec::new();
    proof {
        assert(jview_fields(d@) =~= Seq::<(Seq<char>, JsonV)>::empty());
    }
    let q = match p.get("quote") {
        Some(x) => x.as_str(),
        None => None,
    };
    push_opt_text(&mut d, "teaseText", q);
    let u = match p.get("url") {
        Some(x) => x.as_str(),
        None => None,
    };
    push_opt_text(&mut d, "tweetUrl", u);
    let tier = match t.get("tier") {
        Some(x) => x.as_str(),
        None => None,
    };
    push_opt_text(&mut d, "teaseTier", tier);
    let _ = window_push(&mut d, api.get("teased_window"));
    target_push(&mut d, tt);
    proof {
        assert(jview_fields(d@) =~= tease_detail(api@, now));
    }
    Some(d)
}

fn hint_branch(api: &Json, last: Option<i64>, now: i64) -> (r: Option<Vec<(String, Json)>>)
    requires
        time_ok(now as int),
        is_obj(api@),
    ensures
        match r {
            Some(d) => hint_live(api@, last, now) && jview_fields(d@) == hint_detail(api@, now),
            None => !hint_live(api@, last, now),
        },
{
    let h = match api.get("latest_hint") {
        Some(h) => if h.is_object() {
            h
        } else {
            return None;
        },
        None => return None,
    };
    let ha = match parse_ms_exec(h.get("at")) {
        Some(x) => x,
        None => return None,
    };
    if !(now - ha < SIG_MAX_AGE) || fulfilled_exec(last, Some(ha)) {
        return None;
    }
    let null = Json::Null;
    let quote = match h.get("quote") {
        Some(q) => q,
        None => &null,
    };
    let ht = resolve_target_exec(quote, Some(ha), api.get("time_window"), now);
    let x = match &ht {
        Some(x) => Target { start: x.start, end: x.end },
        None => return None,
    };
    if !still_fresh(&ht, now) {
        return None;
    }
    let mut d: Vec<(String, Json)> = Vec::new();
    proof {
        assert(jview_fields(d@) =~= Seq::<(Seq<char>, JsonV)>::empty());
    }
    let q = match h.get("quote") {
        Some(x) => x.as_str(),
        None => None,
    };
    push_opt_text(&mut d, "teaseText", q);
    let u = match h.get("url") {
        Some(x) => x.as_str(),
        None => None,
    };
    push_opt_text(&mut d, "tweetUrl", u);
    push_field(&mut d, "teaseTier", Json::text("hint"));
    target_push(&mut d, Some(x));
    proof {
        assert(jview_fields(d@) =~= hint_detail(api@, now));
    }
    Some(d)
}

fn window_branch(api: &Json, last: Option<i64>, now: i64) -> (r: Option<Vec<(String, Json)>>)
    requires
        time_ok(now as int),
        is_obj(api@),
    ensures
        match r {
            Some(d) => window_live(api@, last, now) && jview_fields(d@) == window_alone_detail(api@),
            None => !window_live(api@, last, now),
        },
{
    let win = api.get("teased_window");
    let sv = match win {
        Some(w) => w.get("start"),
        None => None,
    };
    let ev = match win {
        Some(w) => w.get("end"),
        None => None,
    };
    let ws = parse_ms_exec(sv);
    let we = parse_ms_exec(ev);
    match (ws, we) {
        (Some(s), Some(e)) => {
            if e > s && e + LATE_GRACE > now && !fulfilled_exec(last, Some(s)) {
                let mut d: Vec<(String, Json)> = Vec::new();
                proof {
                    assert(jview_fields(d@) =~= Seq::<(Seq<char>, JsonV)>::empty());
                }
                let a = match sv {
                    Some(x) => x.deep_copy(),
                    None => Json::Null,
                };
                let b = match ev {
                    Some(x) => x.deep_copy(),
                    None => Json::Null,
                };
                push_field(&mut d, "windowStart", a);
                push_field(&mut d, "windowEnd", b);
                proof {
                    assert(jview_fields(d@) =~= window_alone_detail(api@));
                }
                Some(d)
            } else {
                None
            }
        },
        _ => None,
    }
}

pub fn days_since_exec(last: i64, now: i64) -> (r: Json)
    requires
        parsed_range(last as int),
        time_ok(now as int),
    ensures
        r@ == days_since_v(last, now),
{
    let num = if now - last > 0 {
        now - last
    } else {
        0
    };
    Json::Num(Number::Ratio { num, den: 86_400_000 })
}

fn forecast_ledger_exec(api: &Json, last: Option<i64>, now: i64) -> (r: Json)
    requires
        time_ok(now as int),
        last matches Some(l) ==> parsed_range(l as int),
    ensures
        r@ == forecast_ledger(api@, last, now),
{
    match last {
        None => {
            let d: Vec<(String, Json)> = Vec::new();
            proof {
                assert(jview_fields(d@) =~= Seq::<(Seq<char>, JsonV)>::empty());
            }
            state_json("unhappy", d)
        },
        Some(l) => {
            let mut d: Vec<(String, Json)> = Vec::new();
            proof {
                assert(jview_fields(d@) =~= Seq::<(Seq<char>, JsonV)>::empty());
            }
            push_field(&mut d, "lastResetISO", Json::Str(iso_pub(l)));
            push_field(&mut d, "daysSince", days_since_exec(l, now));
            let p = match api.get("probabilities") {
                Some(pr) => pr.get("rounded_48h"),
                None => None,
            };
            let pv = match p {
                Some(x) => x.deep_copy(),
                None => Json::Null,
            };
            push_field(&mut d, "prob48", pv);
            proof {
                assert(jview_fields(d@) =~= seq![
                    ("lastResetISO"@, iso_v(l as int)),
                    ("daysSince"@, days_since_v(l, now)),
                    ("prob48"@, or_null(oget(get(api@, "probabilities"@), "rounded_48h"@))),
                ]);
            }
            if now - l > UNHAPPY_AFTER_DAYS * DAY {
                state_json("unhappy", d)
            } else {
                state_json("happy", d)
            }
        },
    }
}

/// Derives the state from forecast-shaped upstream JSON.
pub fn derive_forecast(api: &Json, now: i64) -> (r: Json)
    requires
        time_ok(now as int),
    ensures
        r@ == forecast_state(api@, now),
{
    if !api.is_object() {
        let d: Vec<(String, Json)> = Vec::new();
        proof {
            assert(jview_fields(d@) =~= Seq::<(Seq<char>, JsonV)>::empty());
        }
        return state_json("offline", d);
    }
    let last = parse_ms_exec(api.get("last_reset_at"));
    let k_commit = key_list_2("commitment", "official_signal");
    let commit = first_truthy_exec(Some(api), k_commit.as_slice());
    match commit {
        Some(c) => match commit_branch(api, c, last, now) {
            Some(d) => return state_json("happy", d),
            None => {},
        },
        None => {},
    }
    match tease_branch(api, last, now) {
        Some(d) => return state_json("happy", d),
        None => {},
    }
    match hint_branch(api, last, now) {
        Some(d) => return state_json("happy", d),
        None => {},
    }
    match window_branch(api, last, now) {
        Some(d) => return state_json("happy", d),
        None => {},
    }
    forecast_ledger_exec(api, last, now)
}

} // verus!
