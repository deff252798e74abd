//! The resets upstream shape: `{scheduled, events: [{announced_at, reset_type}]}`,
//! and the dispatch between the two shapes.
use vstd::prelude::*;
use crate::fields::{Fields, push_field, push_opt_text, state_json, state_v, text_field};
use crate::forecast::{
    LATE_GRACE, UNHAPPY_AFTER_DAYS, days_since_exec, days_since_v, forecast_state,
    derive_forecast, fulfilled, iso_v, or_null, over_three_days, window_fresh, text_or_null,
};
use crate::json::{
    Json, JsonV, as_str, first_text, first_text_exec, get, is_obj, jview_fields, jview_seq,
    lemma_jview_seq_len, oas_str, opt_view,
};
use crate::target::{resolve_target, resolve_target_exec};
use crate::time::{DAY, HOUR, parsed_range, iso_pub, parse_iso, parse_iso_pub, parse_ms, parse_ms_exec, time_ok};

verus! {

broadcast use vstd::string::group_string_axioms;

/// The latest event by `announced_at` (a later or equal instant replaces an
/// earlier one, in list order) and its `reset_type`.
pub open spec fn ledger(events: Seq<JsonV>) -> (Option<i64>, Option<Seq<char>>)
    decreases events.len(),
{
    if events.len() == 0 {
        (None, None)
    } else {
        let prev = ledger(events.drop_last());
        let e = events.last();
        match parse_ms(get(e, "announced_at"@)) {
            Some(t) => if prev.0 is None || t >= prev.0->0 {
                (Some(t), oas_str(get(e, "reset_type"@)))
            } else {
                prev
            },
            None => prev,
        }
    }
}

/// A scheduled entry with an exact time counts until that time plus the grace,
/// unless a later reset fulfilled it.
pub open spec fn scheduled_exact_live(s: JsonV, sf: i64, last: Option<i64>, now: i64) -> bool {
    let ann = parse_ms(get(s, "announced_at"@));
    sf + LATE_GRACE > now && !fulfilled(
        last,
        match ann {
            Some(a) => Some(a),
            None => Some(sf),
        },
    )
}

pub open spec fn scheduled_exact_detail(s: JsonV) -> Fields {
    seq![
        ("confirmed"@, JsonV::Bool(true)),
        ("scheduledISO"@, or_null(get(s, "scheduled_for"@))),
    ] + text_field("teaseText"@, first_text(Some(s), seq!["display_text"@, "text"@]))
        + text_field("resetType"@, first_text(Some(s), seq!["reset_type"@])) + text_field(
        "tweetUrl"@,
        first_text(Some(s), seq!["tweet_url"@]),
    )
}

pub open spec fn scheduled_text_target(api: JsonV, s: JsonV, now: i64) -> Option<(int, int)> {
    match parse_ms(get(s, "announced_at"@)) {
        Some(a) => resolve_target(
            text_or_null(first_text(Some(s), seq!["display_text"@, "text"@])),
            Some(a),
            get(api, "time_window"@),
            now,
        ),
        None => None,
    }
}

/// A text-only scheduled entry counts when announced within 48 hours or while
/// its window is live, unless a later reset fulfilled it.
pub open spec fn scheduled_text_live(api: JsonV, s: JsonV, last: Option<i64>, now: i64) -> bool {
    match (scheduled_text_target(api, s, now), parse_ms(get(s, "announced_at"@))) {
        (Some(t), Some(a)) => (now - a <= 48 * HOUR || window_fresh(Some(t), now)) && !fulfilled(
            last,
            Some(a),
        ),
        _ => false,
    }
}

pub open spec fn scheduled_text_detail(api: JsonV, s: JsonV, now: i64) -> Fields {
    let t = scheduled_text_target(api, s, now)->0;
    seq![
        ("teaseText"@, text_or_null(first_text(Some(s), seq!["display_text"@, "text"@]))),
        ("teaseTier"@, JsonV::Str("T1"@)),
        ("tweetUrl"@, or_null(get(s, "tweet_url"@))),
        ("targetStart"@, iso_v(t.0)),
        ("targetEnd"@, iso_v(t.1)),
    ]
}

/// The signal carried by `scheduled`, if it counts.
pub open spec fn scheduled_signal(api: JsonV, last: Option<i64>, now: i64) -> Option<Fields> {
    match get(api, "scheduled"@) {
        Some(s) => if is_obj(s) {
            match parse_ms(get(s, "scheduled_for"@)) {
                Some(sf) => if scheduled_exact_live(s, sf, last, now) {
                    Some(scheduled_exact_detail(s))
                } else {
                    None
                },
                None => if scheduled_text_live(api, s, last, now) {
                    Some(scheduled_text_detail(api, s, now))
                } else {
                    None
                },
            }
        } else {
            match as_str(s) {
                Some(txt) => match parse_iso(txt) {
                    Some(t) => if t + LATE_GRACE > now && !fulfilled(last, Some(t)) {
                        Some(seq![("confirmed"@, JsonV::Bool(true)), ("scheduledISO"@, s)])
                    } else {
                        None
                    },
                    None => None,
                },
                None => None,
            }
        },
        None => None,
    }
}

/// The state for the resets shape.
pub open spec fn resets_state(api: JsonV, now: i64) -> JsonV {
    match get(api, "events"@) {
        Some(JsonV::Arr(events)) => {
            let (last, last_type) = ledger(events);
            match scheduled_signal(api, last, now) {
                Some(d) => state_v("happy"@, d),
                None => match last {
                    None => state_v("unhappy"@, Seq::empty()),
                    Some(l) => {
                        let detail = seq![
                            ("lastResetISO"@, iso_v(l as int)),
                            ("daysSince"@, days_since_v(l, now)),
                        ] + text_field("resetType"@, last_type);
                        if over_three_days(l, now) {
                            state_v("unhappy"@, detail)
                        } else {
                            state_v("happy"@, detail)
                        }
                    },
                },
            }
        },
        _ => state_v("offline"@, Seq::empty()),
    }
}

/// Dispatch on the upstream's shape: an object with an `events` array is the
/// resets shape, any other object the forecast shape, anything else offline.
pub open spec fn derived_state(up: JsonV, now: i64) -> JsonV {
    if is_obj(up) {
        if get(up, "events"@) matches Some(JsonV::Arr(_)) {
            resets_state(up, now)
        } else {
            forecast_state(up, now)
        }
    } else {
        state_v("offline"@, Seq::empty())
    }
}

/// The derived state is always `{kind, detail}`. Its kind is `offline`
/// exactly when the upstream is not a JSON object; otherwise it is `happy` or `unhappy`.
pub proof fn lemma_derive_kind(up: JsonV, now: i64)
    ensures
        derived_state(up, now) == state_v(
            crate::display::state_kind(derived_state(up, now)),
            crate::display::state_detail(derived_state(up, now)),
        ),
        (crate::display::state_kind(derived_state(up, now)) == "offline"@) <==> !is_obj(up),
        is_obj(up) ==> (crate::display::state_kind(derived_state(up, now)) == "happy"@
            || crate::display::state_kind(derived_state(up, now)) == "unhappy"@),
{
    reveal_strlit("happy");
    reveal_strlit("unhappy");
    reveal_strlit("offline");
    assert("happy"@.len() != "offline"@.len());
    assert("unhappy"@[0] != "offline"@[0]);
    if !is_obj(up) {
        crate::display::lemma_state_parts("offline"@, Seq::empty());
    } else if get(up, "events"@) matches Some(JsonV::Arr(_)) {
        let events = get(up, "events"@)->0->Arr_0;
        let (last, last_type) = ledger(events);
        match scheduled_signal(up, last, now) {
            Some(d) => crate::display::lemma_state_parts("happy"@, d),
            None => match last {
                None => crate::display::lemma_state_parts("unhappy"@, Seq::empty()),
                Some(l) => {
                    let detail = seq![
                        ("lastResetISO"@, iso_v(l as int)),
                        ("daysSince"@, days_since_v(l, now)),
                    ] + text_field("resetType"@, last_type);
                    crate::display::lemma_state_parts("unhappy"@, detail);
                    crate::display::lemma_state_parts("happy"@, detail);
                },
            },
        }
    } else {
        let api = up;
        let last = parse_ms(get(api, "last_reset_at"@));
        let commit = crate::json::first_truthy(Some(api), seq!["commitment"@, "official_signal"@]);
        if commit matches Some(c) && crate::forecast::commit_live(api, c, last, now) {
            crate::display::lemma_state_parts("happy"@, crate::forecast::commit_detail(api, commit->0, now));
        } else if crate::forecast::tease_live(api, last, now) {
            crate::display::lemma_state_parts("happy"@, crate::forecast::tease_detail(api, now));
        } else if crate::forecast::hint_live(api, last, now) {
            crate::display::lemma_state_parts("happy"@, crate::forecast::hint_detail(api, now));
        } else if crate::forecast::window_live(api, last, now) {
            crate::display::lemma_state_parts("happy"@, crate::forecast::window_alone_detail(api));
        } else {
            match last {
                None => crate::display::lemma_state_parts("unhappy"@, Seq::empty()),
                Some(l) => {
                    let detail = seq![
                        ("lastResetISO"@, iso_v(l as int)),
                        ("daysSince"@, days_since_v(l, now)),
                        ("prob48"@, or_null(crate::json::oget(get(api, "probabilities"@), "rounded_48h"@))),
                    ];
                    crate::display::lemma_state_parts("unhappy"@, detail);
                    crate::display::lemma_state_parts("happy"@, detail);
                },
            }
        }
    }
}

/// The dispatch and when each shape is offline: the forecast derivation is
/// offline for anything but an object; the resets derivation is offline
/// exactly when there is no `events` array; `derive` sends an object with an
/// `events` array to the resets derivation, any other object to the forecast
/// derivation, and reads anything else as offline.
pub proof fn lemma_shape_dispatch(up: JsonV, now: i64)
    ensures
        !is_obj(up) ==> forecast_state(up, now) == state_v("offline"@, Seq::empty()),
        (resets_state(up, now) == state_v("offline"@, Seq::empty())) <==> !(get(
            up,
            "events"@,
        ) matches Some(JsonV::Arr(_))),
        derived_state(up, now) == (if !is_obj(up) {
            state_v("offline"@, Seq::empty())
        } else if get(up, "events"@) matches Some(JsonV::Arr(_)) {
            resets_state(up, now)
        } else {
            forecast_state(up, now)
        }),
{
    if get(up, "events"@) matches Some(JsonV::Arr(_)) {
        lemma_derive_kind(up, now);
        crate::display::lemma_state_parts("offline"@, Seq::empty());
        reveal_strlit("happy");
        reveal_strlit("unhappy");
        reveal_strlit("offline");
        assert("happy"@.len() != "offline"@.len());
        assert("unhappy"@[0] != "offline"@[0]);
    }
}

/// With no reset signal in a forecast-shaped upstream, the last reset
/// decides: happy up to three days after it, unhappy later or when unknown.
pub proof fn lemma_forecast_ledger_rule(api: JsonV, now: i64)
    requires
        is_obj(api),
        !(get(api, "events"@) matches Some(JsonV::Arr(_))),
        get(api, "commitment"@) is None,
        get(api, "official_signal"@) is None,
        get(api, "tease_signal"@) is None,
        get(api, "latest_hint"@) is None,
        get(api, "teased_window"@) is None,
    ensures
        crate::display::state_kind(derived_state(api, now)) == match parse_ms(get(api, "last_reset_at"@)) {
            Some(l) => if over_three_days(l, now) {
                "unhappy"@
            } else {
                "happy"@
            },
            None => "unhappy"@,
        },
{
    let keys = seq!["commitment"@, "official_signal"@];
    let k1 = keys.drop_first();
    assert(k1[0] == "official_signal"@);
    assert(k1.drop_first() =~= Seq::<Seq<char>>::empty());
    assert(crate::json::first_truthy(Some(api), k1.drop_first()) is None);
    assert(crate::json::first_truthy(Some(api), k1) is None);
    assert(keys[0] == "commitment"@);
    assert(crate::json::first_truthy(Some(api), keys) is None);
    lemma_derive_kind(api, now);
    let last = parse_ms(get(api, "last_reset_at"@));
    match last {
        None => crate::display::lemma_state_parts("unhappy"@, Seq::empty()),
        Some(l) => {
            let detail = seq![
                ("lastResetISO"@, iso_v(l as int)),
                ("daysSince"@, days_since_v(l, now)),
                ("prob48"@, or_null(crate::json::oget(get(api, "probabilities"@), "rounded_48h"@))),
            ];
            crate::display::lemma_state_parts("unhappy"@, detail);
            crate::display::lemma_state_parts("happy"@, detail);
        },
    }
}

/// A commitment with a scheduled time keeps the card happy however far ahead
/// that time is, until the late grace after it runs out or a later reset
/// fulfils it.
pub proof fn lemma_commitment_happy(api: JsonV, c: JsonV, now: i64, sf: i64)
    requires
        is_obj(api),
        !(get(api, "events"@) matches Some(JsonV::Arr(_))),
        crate::json::first_truthy(Some(api), seq!["commitment"@, "official_signal"@]) == Some(c),
        first_text(Some(c), seq!["scheduled_for"@, "time"@]) matches Some(s) && parse_iso(s) == Some(sf),
        now < sf + LATE_GRACE,
        !fulfilled(
            parse_ms(get(api, "last_reset_at"@)),
            match crate::forecast::commit_post_at(c) {
                Some(p) => Some(p),
                None => Some(sf),
            },
        ),
    ensures
        crate::display::state_kind(derived_state(api, now)) == "happy"@,
{
    crate::display::lemma_state_parts("happy"@, crate::forecast::commit_detail(api, c, now));
}

/// In the resets shape with nothing scheduled, the latest event decides:
/// happy up to three days after it, unhappy later or without events.
pub proof fn lemma_resets_ledger_rule(api: JsonV, now: i64)
    requires
        get(api, "events"@) matches Some(JsonV::Arr(_)),
        get(api, "scheduled"@) is None,
    ensures
        crate::display::state_kind(derived_state(api, now)) == match ledger(get(api, "events"@)->0->Arr_0).0 {
            Some(l) => if over_three_days(l, now) {
                "unhappy"@
            } else {
                "happy"@
            },
            None => "unhappy"@,
        },
{
    let events = get(api, "events"@)->0->Arr_0;
    let (last, last_type) = ledger(events);
    match last {
        None => crate::display::lemma_state_parts("unhappy"@, Seq::empty()),
        Some(l) => {
            let detail = seq![
                ("lastResetISO"@, iso_v(l as int)),
                ("daysSince"@, days_since_v(l, now)),
            ] + text_field("resetType"@, last_type);
            crate::display::lemma_state_parts("unhappy"@, detail);
            crate::display::lemma_state_parts("happy"@, detail);
        },
    }
}

/// A tease younger than 72 hours keeps the card happy whatever its quote or
/// expiry say, unless a later reset fulfilled it (and no commitment is
/// present to take precedence).
pub proof fn lemma_young_tease_happy(api: JsonV, now: i64, t: JsonV, p: JsonV, tp: i64)
    requires
        is_obj(api),
        get(api, "commitment"@) is None,
        get(api, "official_signal"@) is None,
        get(api, "tease_signal"@) == Some(t),
        get(t, "post"@) == Some(p),
        is_obj(p),
        parse_ms(get(p, "at"@)) == Some(tp),
        now - tp < 72 * HOUR,
        match parse_ms(get(api, "last_reset_at"@)) {
            Some(l) => l <= tp,
            None => true,
        },
    ensures
        crate::display::state_kind(forecast_state(api, now)) == "happy"@,
        !(get(api, "events"@) matches Some(JsonV::Arr(_))) ==> crate::display::state_kind(
            derived_state(api, now),
        ) == "happy"@,
{
    let keys = seq!["commitment"@, "official_signal"@];
    assert(keys.drop_first().drop_first().len() == 0);
    assert(keys[0] == "commitment"@ && keys.drop_first()[0] == "official_signal"@);
    assert(crate::json::first_truthy(Some(api), keys.drop_first().drop_first()) is None);
    assert(crate::json::first_truthy(Some(api), keys.drop_first()) is None);
    assert(crate::json::first_truthy(Some(api), keys) is None);
    assert(crate::forecast::tease_post(api) == Some(p));
    assert(crate::forecast::tease_live(api, parse_ms(get(api, "last_reset_at"@)), now));
    crate::display::lemma_state_parts("happy"@, crate::forecast::tease_detail(api, now));
}

/// An event's announcement instant, when it parses.
pub open spec fn announced(e: JsonV) -> Option<i64> {
    parse_ms(get(e, "announced_at"@))
}

/// The ledger's last reset is the latest announcement among all events,
/// whatever their order, and its reset type is that of an event announced at
/// that instant; without any announcement there is none.
pub proof fn lemma_ledger_latest(events: Seq<JsonV>)
    ensures
        forall|i: int|
            0 <= i < events.len() && #[trigger] announced(events[i]) is Some ==> ledger(events).0 is Some
                && announced(events[i])->0 <= ledger(events).0->0,
        ledger(events).0 is Some ==> exists|i: int|
            0 <= i < events.len() && #[trigger] announced(events[i]) == ledger(events).0 && ledger(events).1
                == oas_str(get(events[i], "reset_type"@)),
        ledger(events).0 is None ==> forall|i: int| 0 <= i < events.len() ==> #[trigger] announced(events[i]) is None,
    decreases events.len(),
{
    if events.len() > 0 {
        let prev = events.drop_last();
        lemma_ledger_latest(prev);
        let n = events.len() - 1;
        assert forall|i: int| 0 <= i < n implies events[i] == prev[i] by {}
        if ledger(prev).0 is Some && ledger(events).0 == ledger(prev).0 && ledger(events).1 == ledger(prev).1 {
            let i = choose|i: int|
                0 <= i < prev.len() && #[trigger] announced(prev[i]) == ledger(prev).0 && ledger(prev).1
                    == oas_str(get(prev[i], "reset_type"@));
            assert(announced(events[i]) == ledger(events).0);
        }
        if ledger(events).0 is Some && ledger(events).0 != ledger(prev).0 {
            assert(announced(events[n]) == ledger(events).0);
        }
    }
}

/// In the resets shape with nothing scheduled, the card is happy exactly when
/// some event was announced no more than three days before `now`.
pub proof fn lemma_resets_any_recent_event(api: JsonV, now: i64)
    requires
        get(api, "events"@) matches Some(JsonV::Arr(_)),
        get(api, "scheduled"@) is None,
    ensures
        crate::display::state_kind(resets_state(api, now)) == (if exists|i: int|
            0 <= i < get(api, "events"@)->0->Arr_0.len() && #[trigger] announced(
                get(api, "events"@)->0->Arr_0[i],
            ) is Some && now - announced(get(api, "events"@)->0->Arr_0[i])->0 <= UNHAPPY_AFTER_DAYS * DAY {
            "happy"@
        } else {
            "unhappy"@
        }),
{
    let events = get(api, "events"@)->0->Arr_0;
    lemma_resets_ledger_rule(api, now);
    lemma_ledger_latest(events);
    assert(derived_state(api, now) == resets_state(api, now));
    match ledger(events).0 {
        Some(m) => {
            let i = choose|i: int|
                0 <= i < events.len() && #[trigger] announced(events[i]) == ledger(events).0 && ledger(events).1
                    == oas_str(get(events[i], "reset_type"@));
            assert(announced(events[i]) is Some);
        },
        None => {},
    }
}

/// A tease posted within seven days keeps the card happy while the window its
/// text points at has not ended more than the late grace ago, unless a later
/// reset fulfilled it (and no commitment is present to take precedence).
pub proof fn lemma_tease_happy(api: JsonV, now: i64, tp: i64, t: (int, int))
    requires
        is_obj(api),
        !(get(api, "events"@) matches Some(JsonV::Arr(_))),
        get(api, "commitment"@) is None,
        get(api, "official_signal"@) is None,
        get(api, "tease_signal"@) is Some,
        crate::forecast::tease_post(api) is Some,
        parse_ms(crate::json::oget(crate::forecast::tease_post(api), "at"@)) == Some(tp),
        now - tp < crate::forecast::SIG_MAX_AGE,
        !fulfilled(parse_ms(get(api, "last_reset_at"@)), Some(tp)),
        crate::forecast::tease_target(api, tp, now) == Some(t),
        now < t.1 + LATE_GRACE,
    ensures
        crate::display::state_kind(derived_state(api, now)) == "happy"@,
{
    let keys = seq!["commitment"@, "official_signal"@];
    let k1 = keys.drop_first();
    assert(k1[0] == "official_signal"@);
    assert(k1.drop_first() =~= Seq::<Seq<char>>::empty());
    assert(crate::json::first_truthy(Some(api), k1.drop_first()) is None);
    assert(crate::json::first_truthy(Some(api), k1) is None);
    assert(keys[0] == "commitment"@);
    assert(crate::json::first_truthy(Some(api), keys) is None);
    crate::display::lemma_state_parts("happy"@, crate::forecast::tease_detail(api, now));
}

fn ledger_exec(events: &Vec<Json>) -> (r: (Option<i64>, Option<&str>))
    ensures
        r.0 == ledger(jview_seq(events@)).0,
        (match r.1 {
            Some(s) => Some(s@),
            None => None,
        }) == ledger(jview_seq(events@)).1,
        r.0 matches Some(t) ==> parsed_range(t as int),
{
    let mut last: Option<i64> = None;
    let mut ty: Option<&str> = None;
    let mut i: usize = 0;
    proof {
        lemma_jview_seq_len(events@);
        assert(jview_seq(events@).take(0) =~= Seq::<JsonV>::empty());
    }
    while i < events.len()
        invariant
            i <= events.len(),
            jview_seq(events@).len() == events@.len(),
            forall|j: int| 0 <= j < events@.len() ==> #[trigger] jview_seq(events@)[j] == events@[j]@,
            last == ledger(jview_seq(events@).take(i as int)).0,
            (match ty {
                Some(s) => Some(s@),
                None => None,
            }) == ledger(jview_seq(events@).take(i as int)).1,
            last matches Some(t) ==> parsed_range(t as int),
        decreases events.len() - i,
    {
        let e = &events[i];
        let t = parse_ms_exec(e.get("announced_at"));
        proof {
            let s = jview_seq(events@).take(i + 1);
            assert(s.drop_last() =~= jview_seq(events@).take(i as int));
            assert(s.last() == e@);
        }
        match t {
            Some(tv) => {
                let newer = match last {
                    None => true,
                    Some(l) => tv >= l,
                };
                if newer {
                    last = Some(tv);
                    ty = match e.get("reset_type") {
                        Some(x) => x.as_str(),
                        None => None,
                    };
                }
            },
            None => {},
        }
        i = i + 1;
    }
    proof {
        assert(jview_seq(events@).take(events@.len() as int) =~= jview_seq(events@));
    }
    (last, ty)
}

fn key_list(a: &'static str) -> (r: Vec<&'static str>)
    ensures
        r@.map_values(|k: &str| k@) == seq![a@],
{
    let mut v: Vec<&'static str> = Vec::new();
    v.push(a);
    assert(v@.map_values(|k: &str| k@) =~= seq![a@]);
    v
}

fn key_list_2(a: &'static str, b: &'static str) -> (r: Vec<&'static str>)
    ensures
        r@.map_values(|k: &str| k@) == seq![a@, b@],
{
    let mut v: Vec<&'static str> = Vec::new();
    v.push(a);
    v.push(b);
    assert(v@.map_values(|k: &str| k@) =~= seq![a@, b@]);
    v
}

fn fulfilled_exec(last: Option<i64>, at: Option<i64>) -> (r: bool)
    ensures
        r == fulfilled(last, at),
{
    match (at, last) {
        (Some(a), Some(l)) => a < l,
        _ => false,
    }
}

fn scheduled_signal_exec(api: &Json, last: Option<i64>, now: i64) -> (r: Option<Vec<(String, Json)>>)
    requires
        time_ok(now as int),
    ensures
        match r {
            Some(d) => scheduled_signal(api@, last, now) == Some(jview_fields(d@)),
            None => scheduled_signal(api@, last, now) is None,
        },
{
    let s = match api.get("scheduled") {
        Some(s) => s,
        None => return None,
    };
    let k_text = key_list_2("display_text", "text");
    if s.is_object() {
        match parse_ms_exec(s.get("scheduled_for")) {
            Some(sf) => {
                let ann = parse_ms_exec(s.get("announced_at"));
                let at = match ann {
                    Some(a) => Some(a),
                    None => Some(sf),
                };
                if sf + LATE_GRACE > now && !fulfilled_exec(last, at) {
                    let mut d: Vec<(String, Json)> = Vec::new();
                    proof {
                        assert(jview_fields(d@) =~= Seq::<(Seq<char>, JsonV)>::empty());
                    }
                    push_field(&mut d, "confirmed", Json::Bool(true));
                    let sv = match s.get("scheduled_for") {
                        Some(x) => x.deep_copy(),
                        None => Json::Null,
                    };
                    push_field(&mut d, "scheduledISO", sv);
                    push_opt_text(&mut d, "teaseText", first_text_exec(Some(s), k_text.as_slice()));
                    let k_type = key_list("reset_type");
                    push_opt_text(&mut d, "resetType", first_text_exec(Some(s), k_type.as_slice()));
                    let k_url = key_list("tweet_url");
                    push_opt_text(&mut d, "tweetUrl", first_text_exec(Some(s), k_url.as_slice()));
                    proof {
                        assert(jview_fields(d@) =~= scheduled_exact_detail(s@));
                    }
                    Some(d)
                } else {
                    None
                }
            },
            None => {
                let txt = first_text_exec(Some(s), k_text.as_slice());
                let tj = match txt {
                    Some(t) => Json::text(t),
                    None => Json::Null,
                };
                let ann = parse_ms_exec(s.get("announced_at"));
                let a = match ann {
                    Some(a) => a,
                    None => return None,
                };
                let t = match resolve_target_exec(&tj, Some(a), api.get("time_window"), now) {
                    Some(t) => t,
                    None => return None,
                };
                if (now - a <= 48 * HOUR || now < t.end + LATE_GRACE) && !fulfilled_exec(last, Some(a)) {
                    let mut d: Vec<(String, Json)> = Vec::new();
                    proof {
                        assert(jview_fields(d@) =~= Seq::<(Seq<char>, JsonV)>::empty());
                    }
                    push_field(&mut d, "teaseText", tj);
                    push_field(&mut d, "teaseTier", Json::text("T1"));
                    let u = match s.get("tweet_url") {
                        Some(x) => x.deep_copy(),
                        None => Json::Null,
                    };
                    push_field(&mut d, "tweetUrl", u);
                    push_field(&mut d, "targetStart", Json::Str(iso_pub(t.start)));
                    push_field(&mut d, "targetEnd", Json::Str(iso_pub(t.end)));
                    proof {
                        assert(jview_fields(d@) =~= scheduled_text_detail(api@, s@, now));
                    }
                    Some(d)
                } else {
                    None
                }
            },
        }
    } else {
        let txt = match s.as_str() {
            Some(x) => x,
            None => return None,
        };
        let t = match parse_iso_pub(txt) {
            Some(t) => t,
            None => return None,
        };
        if t + LATE_GRACE > now && !fulfilled_exec(last, Some(t)) {
            let mut d: Vec<(String, Json)> = Vec::new();
            proof {
                assert(jview_fields(d@) =~= Seq::<(Seq<char>, JsonV)>::empty());
            }
            push_field(&mut d, "confirmed", Json::Bool(true));
            push_field(&mut d, "scheduledISO", s.deep_copy());
            proof {
                assert(jview_fields(d@) =~= seq![("confirmed"@, JsonV::Bool(true)), ("scheduledISO"@, s@)]);
            }
            Some(d)
        } else {
            None
        }
    }
}

/// Derives the state from resets-shaped upstream JSON.
pub fn derive_state(api: &Json, now: i64) -> (r: Json)
    requires
        time_ok(now as int),
    ensures
        r@ == resets_state(api@, now),
{
    let events = match api.get("events") {
        Some(Json::Arr(v)) => v,
        _ => {
            let d: Vec<(String, Json)> = Vec::new();
            proof {
                assert(jview_fields(d@) =~= Seq::<(Seq<char>, JsonV)>::empty());
            }
            return state_json("offline", d);
        },
    };
    let (last, ty) = ledger_exec(events);
    match scheduled_signal_exec(api, last, now) {
        Some(d) => return state_json("happy", d),
        None => {},
    }
    match last {
        None => {
            let d: Vec<(String, Json)> = Vec::new();
            proof {
                assert(jview_fields(d@) =~= Seq::<(Seq<char>, JsonV)>::empty());
            }
            state_json("unhappy", d)
        },
        Some(l) => {
            let mut d: Vec<(String, Json)> = Vec::new();
            proof {
                assert(jview_fields(d@) =~= Seq::<(Seq<char>, JsonV)>::empty());
            }
            push_field(&mut d, "lastResetISO", Json::Str(iso_pub(l)));
            push_field(&mut d, "daysSince", days_since_exec(l, now));
            push_opt_text(&mut d, "resetType", ty);
            proof {
                assert(jview_fields(d@) =~= seq![
                    ("lastResetISO"@, iso_v(l as int)),
                    ("daysSince"@, days_since_v(l, now)),
                ] + text_field("resetType"@, ledger(jview_seq(events@)).1));
            }
            if now - l > UNHAPPY_AFTER_DAYS * DAY {
                state_json("unhappy", d)
            } else {
                state_json("happy", d)
            }
        },
    }
}

/// Derives the card state from upstream JSON of either shape.
pub fn derive(up: &Json, now: i64) -> (r: Json)
    requires
        time_ok(now as int),
    ensures
        r@ == derived_state(up@, now),
{
    if up.is_object() {
        let is_resets = match up.get("events") {
            Some(e) => e.is_array(),
            None => false,
        };
        if is_resets {
            derive_state(up, now)
        } else {
            derive_forecast(up, now)
        }
    } else {
        let d: Vec<(String, Json)> = Vec::new();
        proof {
            assert(jview_fields(d@) =~= Seq::<(Seq<char>, JsonV)>::empty());
        }
        state_json("offline", d)
    }
}

} // verus!
