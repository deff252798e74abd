//! The daemon's decisions: how often the host app may be relaunched, how long
//! to wait after failures, what to do with an event from the page, and what
//! is pushed to the widget. The daemon's loops, processes and connections are
//! run by the caller, which asks these functions what to do next.
use vstd::prelude::*;
use crate::display::{state_detail, state_kind, sub_pair, sub_pair_exec};
use crate::fields::{Fields, push_field, state_json, state_v};
use crate::json::{Json, JsonV, fields_put, get, jview_fields, oas_str, obj_set, oget, opt_view};
use crate::num::{Number, sat_i64};
use crate::resets::derived_state;
use crate::text::{contains, join2, join3, occurs_at};
use crate::time::time_ok;

verus! {

broadcast use vstd::string::group_string_axioms;

/// The host app is relaunched at most this many times per window.
pub const RELAUNCH_CAP: usize = 3;

/// The relaunch window (one hour), in milliseconds.
pub const RELAUNCH_WINDOW_MS: u64 = 3_600_000;

/// The relaunches of the last hour, as instants in milliseconds of a
/// monotonic clock, and whether the "cap reached" message was logged.
pub struct RelaunchCap {
    pub times: Vec<u64>,
    pub logged: bool,
}

/// A relaunch at `t` still counts at `now` (an instant after `now` counts too).
pub open spec fn recent(now: u64) -> spec_fn(u64) -> bool {
    |t: u64| now < t + RELAUNCH_WINDOW_MS
}

/// One request for a relaunch at `now`: relaunches older than an hour are
/// forgotten, and the request is granted, and recorded, while fewer than three remain.
pub open spec fn cap_step(times: Seq<u64>, now: u64) -> (Seq<u64>, bool) {
    let kept = times.filter(recent(now));
    if kept.len() < RELAUNCH_CAP {
        (kept.push(now), true)
    } else {
        (kept, false)
    }
}

/// Requests at the instants `nows`, from a fresh cap: the relaunches then
/// recorded, and the instants of the requests that were granted, in order.
pub open spec fn cap_after(nows: Seq<u64>) -> (Seq<u64>, Seq<u64>)
    decreases nows.len(),
{
    if nows.len() == 0 {
        (Seq::empty(), Seq::empty())
    } else {
        let (times, granted) = cap_after(nows.drop_last());
        let (times2, ok) = cap_step(times, nows.last());
        (times2, if ok {
            granted.push(nows.last())
        } else {
            granted
        })
    }
}

/// An instant in the hour starting at `start`.
pub open spec fn in_hour(start: int) -> spec_fn(u64) -> bool {
    |t: u64| start <= t && t < start + RELAUNCH_WINDOW_MS
}

pub open spec fn nondecreasing(s: Seq<u64>) -> bool {
    forall|i: int, j: int| 0 <= i <= j < s.len() ==> s[i] <= s[j]
}

proof fn lemma_filter_push(s: Seq<u64>, x: u64, p: spec_fn(u64) -> bool)
    ensures
        s.push(x).filter(p) == (if p(x) {
            s.filter(p).push(x)
        } else {
            s.filter(p)
        }),
{
    reveal(Seq::filter);
    assert(s.push(x).drop_last() =~= s);
}

/// Filtering by a stricter test after a weaker one is filtering by the stricter one.
proof fn lemma_filter_twice(s: Seq<u64>, p: spec_fn(u64) -> bool, q: spec_fn(u64) -> bool)
    requires
        forall|t: u64| #[trigger] q(t) ==> p(t),
    ensures
        s.filter(p).filter(q) == s.filter(q),
    decreases s.len(),
{
    reveal(Seq::filter);
    if s.len() > 0 {
        lemma_filter_twice(s.drop_last(), p, q);
        lemma_filter_push(s.drop_last().filter(p), s.last(), q);
        assert(s.drop_last().push(s.last()) =~= s);
    }
}

/// A test that holds wherever another holds keeps at least as many elements.
proof fn lemma_filter_len_mono(s: Seq<u64>, p: spec_fn(u64) -> bool, q: spec_fn(u64) -> bool)
    requires
        forall|t: u64| #[trigger] p(t) ==> q(t),
    ensures
        s.filter(p).len() <= s.filter(q).len(),
    decreases s.len(),
{
    reveal(Seq::filter);
    if s.len() > 0 {
        lemma_filter_len_mono(s.drop_last(), p, q);
    }
}

/// The recorded relaunches are the granted ones still recent at the last request.
pub proof fn lemma_cap_after_times(nows: Seq<u64>)
    requires
        nows.len() > 0,
        nondecreasing(nows),
    ensures
        cap_after(nows).0 == cap_after(nows).1.filter(recent(nows.last())),
    decreases nows.len(),
{
    let prev = nows.drop_last();
    let x = nows.last();
    let (times, granted) = cap_after(prev);
    if prev.len() == 0 {
        reveal(Seq::filter);
        assert(granted =~= Seq::<u64>::empty());
        assert(times =~= Seq::<u64>::empty());
        assert(times.filter(recent(x)) =~= Seq::<u64>::empty());
        lemma_filter_push(granted, x, recent(x));
    } else {
        assert(nondecreasing(prev));
        lemma_cap_after_times(prev);
        let y = prev.last();
        assert(y <= x);
        assert forall|t: u64| #[trigger] recent(x)(t) implies recent(y)(t) by {}
        lemma_filter_twice(granted, recent(y), recent(x));
        lemma_filter_push(granted, x, recent(x));
    }
}

/// Each request is granted exactly when fewer than three of the requests
/// granted before it fall within the hour before it.
pub proof fn lemma_cap_grant_rule(nows: Seq<u64>)
    requires
        nows.len() > 0,
        nondecreasing(nows),
    ensures
        cap_after(nows).1 == (if cap_after(nows.drop_last()).1.filter(recent(nows.last())).len()
            < RELAUNCH_CAP {
            cap_after(nows.drop_last()).1.push(nows.last())
        } else {
            cap_after(nows.drop_last()).1
        }),
{
    let prev = nows.drop_last();
    let x = nows.last();
    let (times, granted) = cap_after(prev);
    if prev.len() == 0 {
        reveal(Seq::filter);
        assert(times =~= Seq::<u64>::empty());
        assert(granted =~= Seq::<u64>::empty());
        assert(times.filter(recent(x)) =~= Seq::<u64>::empty());
        assert(granted.filter(recent(x)) =~= Seq::<u64>::empty());
    } else {
        assert(nondecreasing(prev));
        lemma_cap_after_times(prev);
        let y = prev.last();
        assert(y <= x);
        assert forall|t: u64| #[trigger] recent(x)(t) implies recent(y)(t) by {}
        lemma_filter_twice(granted, recent(y), recent(x));
    }
}

/// The relaunch cap's promise: however the requests fall, at most three
/// relaunches are granted in any hour.
pub proof fn lemma_cap_hourly(nows: Seq<u64>, start: int)
    requires
        nondecreasing(nows),
    ensures
        cap_after(nows).1.filter(in_hour(start)).len() <= RELAUNCH_CAP,
    decreases nows.len(),
{
    reveal(Seq::filter);
    if nows.len() > 0 {
        let prev = nows.drop_last();
        let x = nows.last();
        assert(nondecreasing(prev));
        lemma_cap_hourly(prev, start);
        let (times, granted) = cap_after(prev);
        let (times2, ok) = cap_step(times, x);
        lemma_filter_push(granted, x, in_hour(start));
        if ok && in_hour(start)(x) {
            if prev.len() > 0 {
                lemma_cap_after_times(prev);
                let y = prev.last();
                assert(y <= x);
                assert forall|t: u64| #[trigger] recent(x)(t) implies recent(y)(t) by {}
                lemma_filter_twice(granted, recent(y), recent(x));
            } else {
                assert(granted =~= Seq::<u64>::empty());
            }
            assert forall|t: u64| #[trigger] in_hour(start)(t) implies recent(x)(t) by {}
            lemma_filter_len_mono(granted, in_hour(start), recent(x));
        }
    }
}

impl RelaunchCap {
    pub fn new() -> (r: RelaunchCap)
        ensures
            r.times@.len() == 0,
            !r.logged,
    {
        RelaunchCap { times: Vec::new(), logged: false }
    }

    /// Whether a relaunch may happen at `now`: relaunches older than an hour
    /// are forgotten, and one is granted (and recorded) only while fewer than
    /// three remain. `logged` turns true when a refusal is first met and false
    /// again once the count drops below the cap.
    pub fn allowed(&mut self, now: u64) -> (r: bool)
        ensures
            (final(self).times@, r) == cap_step(old(self).times@, now),
            r == (old(self).times@.filter(recent(now)).len() < RELAUNCH_CAP),
            r ==> final(self).times@ == old(self).times@.filter(recent(now)).push(now),
            r ==> !final(self).logged,
            !r ==> final(self).times@ == old(self).times@.filter(recent(now)) && final(self).logged,
            old(self).times@.len() <= RELAUNCH_CAP ==> final(self).times@.len() <= RELAUNCH_CAP,
    {
        proof {
            old(self).times@.lemma_filter_len(recent(now));
        }
        let ghost old_times = self.times@;
        let mut kept: Vec<u64> = Vec::new();
        let mut i: usize = 0;
        proof {
            reveal(Seq::filter);
            assert(old_times.take(0) =~= Seq::<u64>::empty());
        }
        while i < self.times.len()
            invariant
                i <= self.times@.len(),
                self.times@ == old_times,
                kept@ == old_times.take(i as int).filter(recent(now)),
            decreases self.times@.len() - i,
        {
            proof {
                reveal(Seq::filter);
                assert(old_times.take(i + 1).drop_last() =~= old_times.take(i as int));
                assert(old_times.take(i + 1).last() == old_times[i as int]);
            }
            let t = self.times[i];
            if (now as u128) < (t as u128) + (RELAUNCH_WINDOW_MS as u128) {
                kept.push(t);
            }
            i = i + 1;
        }
        assert(old_times.take(old_times.len() as int) =~= old_times);
        self.times = kept;
        if self.times.len() < RELAUNCH_CAP {
            self.logged = false;
            self.times.push(now);
            true
        } else {
            self.logged = true;
            false
        }
    }
}

/// The wait before the next page initialisation after `fails` failures in a
/// row: 30 s, then 60, 120 and 300 s from the fourth on.
pub open spec fn init_backoff(fails: u32) -> u64 {
    if fails <= 1 {
        30
    } else if fails == 2 {
        60
    } else if fails == 3 {
        120
    } else {
        300
    }
}

pub fn init_backoff_secs(fails: u32) -> (r: u64)
    ensures
        r == init_backoff(fails),
{
    let k = if fails == 0 {
        0
    } else {
        fails - 1
    };
    if k == 0 {
        30
    } else if k == 1 {
        60
    } else if k == 2 {
        120
    } else {
        300
    }
}

/// The poll interval (15 minutes) and the bounds of the retry delay.
pub const POLL_SECS: u64 = 900;

pub const RETRY_MIN_SECS: u64 = 60;

pub const RETRY_MAX_SECS: u64 = 900;

/// After a fetch: the wait before the next poll and the retry delay to keep.
/// A success waits the poll interval and resets the delay to a minute; a
/// failure waits the current delay and doubles it, up to 15 minutes.
pub fn next_poll(fetch_ok: bool, retry_secs: u64) -> (r: (u64, u64))
    requires
        retry_secs <= RETRY_MAX_SECS,
    ensures
        fetch_ok ==> r == (POLL_SECS, RETRY_MIN_SECS),
        !fetch_ok ==> r.0 == retry_secs && r.1 == (if 2 * retry_secs < RETRY_MAX_SECS {
            2 * retry_secs
        } else {
            RETRY_MAX_SECS as int
        }),
        r.1 <= RETRY_MAX_SECS,
{
    if fetch_ok {
        (POLL_SECS, RETRY_MIN_SECS)
    } else {
        let doubled = retry_secs * 2;
        (retry_secs, if doubled < RETRY_MAX_SECS {
            doubled
        } else {
            RETRY_MAX_SECS
        })
    }
}

/// The delay before reconnecting after `fails` failed sessions in a row:
/// 3 s doubled per further failure, at most 15 minutes.
pub open spec fn session_delay(fails: nat) -> int {
    if fails >= 10 {
        900
    } else {
        let d: int = 3 * (vstd::arithmetic::power2::pow2((fails - 1) as nat) as int);
        if d < 900 {
            d
        } else {
            900
        }
    }
}

pub fn session_delay_secs(fails: u32) -> (r: u64)
    requires
        fails >= 1,
    ensures
        r == session_delay(fails as nat),
{
    let mut d: u64 = 3;
    let mut k: u32 = 1;
    proof {
        vstd::arithmetic::power2::lemma2_to64();
    }
    if fails >= 10 {
        return 900;
    }
    while k < fails
        invariant
            1 <= k <= fails < 10,
            d == 3 * vstd::arithmetic::power2::pow2((k - 1) as nat),
        decreases fails - k,
    {
        proof {
            vstd::arithmetic::power2::lemma2_to64();
            vstd::arithmetic::power2::lemma_pow2_adds((k - 1) as nat, 1);
        }
        d = d * 2;
        k = k + 1;
    }
    if d < 900 {
        d
    } else {
        900
    }
}

/// How an attempt to initialise the page over the inspector ended.
#[derive(PartialEq, Eq, Structural)]
pub enum InitRes {
    Attached,
    Deferred,
    Failed,
}

/// A failed inspector attach: another program's inspector on the port, or an
/// app still starting (seen less than two minutes ago, same main process)
/// defers; anything else counts as a failure.
pub open spec fn attach_failure(err: Seq<char>, young: bool, same_pid: bool) -> InitRes {
    if contains(err, "owner mismatch"@) {
        InitRes::Deferred
    } else if young && same_pid {
        InitRes::Deferred
    } else {
        InitRes::Failed
    }
}

pub fn classify_attach_failure(err: &str, young: bool, same_pid: bool) -> (r: InitRes)
    ensures
        r == attach_failure(err@, young, same_pid),
{
    let ev = crate::text::to_chars(err);
    let mark = crate::text::to_chars("owner mismatch");
    match crate::text::find_from_exec(&ev, &mark, 0) {
        Some(i) => {
            assert(occurs_at(err@, "owner mismatch"@, i as int));
            InitRes::Deferred
        },
        None => {
            assert forall|i: int| !occurs_at(err@, "owner mismatch"@, i) by {
                if 0 <= i {
                    assert(!occurs_at(ev@, mark@, i));
                }
            }
            if young && same_pid {
                InitRes::Deferred
            } else {
                InitRes::Failed
            }
        },
    }
}

/// The app counts as starting for two minutes after it was first seen.
pub fn app_young(now_ms: u64, seen_at_ms: Option<u64>) -> (r: bool)
    ensures
        r == (seen_at_ms matches Some(t) && (now_ms as int) - (t as int) < 120_000),
{
    match seen_at_ms {
        Some(t) => (now_ms as i128) - (t as i128) < 120_000,
        None => false,
    }
}

/// After an initialisation: the attach failures in a row, and whether the
/// inspector channel is given up for the debug port (three failures in a row).
pub fn after_init(res: InitRes, attach_fails: u32) -> (r: (u32, bool))
    requires
        attach_fails < u32::MAX,
    ensures
        res == InitRes::Attached ==> r == (0u32, false),
        res == InitRes::Deferred ==> r == (attach_fails, false),
        res == InitRes::Failed ==> r == ((attach_fails + 1) as u32, attach_fails + 1 >= 3),
{
    match res {
        InitRes::Attached => (0, false),
        InitRes::Deferred => (attach_fails, false),
        InitRes::Failed => (attach_fails + 1, attach_fails + 1 >= 3),
    }
}

/// The wait between rounds in inspector mode: 5 s until a page is hooked, then 30 s.
pub fn inspector_wait_secs(hooked_pid: u32) -> (r: u64)
    ensures
        r == (if hooked_pid == 0 {
            5u64
        } else {
            30u64
        }),
{
    if hooked_pid == 0 {
        5
    } else {
        30
    }
}

/// What the session does with an event from the page.
pub enum SessionAction {
    Ignore,
    LogUnmatched(String),
    Refresh,
    Reinject,
}

/// Refreshes asked for from the menu are throttled to one per five minutes.
pub const MENU_REFRESH_GAP_MS: i64 = 300_000;

/// The prefix a menu item the widget could not match arrives with.
pub open spec fn unmatched_prefix() -> Seq<char> {
    "menu-unmatched:"@
}

/// A CDP event `method` with `params`: a refresh binding call from the widget
/// refreshes (unless a fetch happened less than five minutes ago, or it reports
/// an unmatched menu item), a top-frame navigation re-injects, anything else is ignored.
pub open spec fn session_action(method: Seq<char>, params: JsonV, now: i64, last_fetch_at: i64) -> SessionActionV {
    if method == "Runtime.bindingCalled"@ {
        if oas_str(get(params, "name"@)) != Some("ithRefresh"@) {
            SessionActionV::Ignore
        } else {
            let payload = match oas_str(get(params, "payload"@)) {
                Some(p) => p,
                None => Seq::empty(),
            };
            if payload.len() >= unmatched_prefix().len() && payload.subrange(
                0,
                unmatched_prefix().len() as int,
            ) == unmatched_prefix() {
                SessionActionV::LogUnmatched(payload.skip(unmatched_prefix().len() as int))
            } else if now - last_fetch_at < MENU_REFRESH_GAP_MS {
                SessionActionV::Ignore
            } else {
                SessionActionV::Refresh
            }
        }
    } else if method == "Page.frameNavigated"@ {
        match oget(get(params, "frame"@), "parentId"@) {
            None => SessionActionV::Reinject,
            Some(JsonV::Null) => SessionActionV::Reinject,
            _ => SessionActionV::Ignore,
        }
    } else {
        SessionActionV::Ignore
    }
}

/// The mathematical value of a `SessionAction`.
pub enum SessionActionV {
    Ignore,
    LogUnmatched(Seq<char>),
    Refresh,
    Reinject,
}

pub open spec fn action_view(a: SessionAction) -> SessionActionV {
    match a {
        SessionAction::Ignore => SessionActionV::Ignore,
        SessionAction::LogUnmatched(s) => SessionActionV::LogUnmatched(s@),
        SessionAction::Refresh => SessionActionV::Refresh,
        SessionAction::Reinject => SessionActionV::Reinject,
    }
}

fn strip_prefix_chars(s: &str, prefix: &str) -> (r: Option<String>)
    ensures
        match r {
            Some(rest) => s@.len() >= prefix@.len() && s@.subrange(0, prefix@.len() as int) == prefix@
                && rest@ == s@.skip(prefix@.len() as int),
            None => !(s@.len() >= prefix@.len() && s@.subrange(0, prefix@.len() as int) == prefix@),
        },
{
    let sv = crate::text::to_chars(s);
    let pv = crate::text::to_chars(prefix);
    if crate::text::matches_at(&sv, &pv, 0) {
        let rest = crate::text::slice(&sv, pv.len(), sv.len());
        assert(rest@ =~= s@.skip(prefix@.len() as int));
        Some(crate::text::from_chars(rest.as_slice()))
    } else {
        None
    }
}

/// Decides what to do with an event the page sent.
pub fn on_session_event(method: &str, params: &Json, now: i64, last_fetch_at: i64) -> (r: SessionAction)
    ensures
        action_view(r) == session_action(method@, params@, now, last_fetch_at),
{
    if crate::text::str_eq(method, "Runtime.bindingCalled") {
        let is_refresh = match params.get("name") {
            Some(n) => match n.as_str() {
                Some(t) => crate::text::str_eq(t, "ithRefresh"),
                None => false,
            },
            None => false,
        };
        if !is_refresh {
            assert(oas_str(get(params@, "name"@)) != Some("ithRefresh"@));
            return SessionAction::Ignore;
        }
        assert(oas_str(get(params@, "name"@)) == Some("ithRefresh"@));
        let payload: &str = match params.get("payload") {
            Some(p) => match p.as_str() {
                Some(t) => t,
                None => "",
            },
            None => "",
        };
        proof {
            reveal_strlit("");
        }
        assert(payload@ == match oas_str(get(params@, "payload"@)) {
            Some(p) => p,
            None => Seq::empty(),
        });
        match strip_prefix_chars(payload, "menu-unmatched:") {
            Some(label) => SessionAction::LogUnmatched(label),
            None => if (now as i128) - (last_fetch_at as i128) < MENU_REFRESH_GAP_MS as i128 {
                SessionAction::Ignore
            } else {
                SessionAction::Refresh
            },
        }
    } else if crate::text::str_eq(method, "Page.frameNavigated") {
        proof {
            reveal_strlit("Runtime.bindingCalled");
            reveal_strlit("Page.frameNavigated");
            assert("Runtime.bindingCalled"@.len() != "Page.frameNavigated"@.len());
        }
        let parent = match params.get("frame") {
            Some(f) => f.get("parentId"),
            None => None,
        };
        match parent {
            None => SessionAction::Reinject,
            Some(Json::Null) => SessionAction::Reinject,
            _ => SessionAction::Ignore,
        }
    } else {
        SessionAction::Ignore
    }
}

/// With no frame from the page for 90 seconds the connection is probed.
pub fn keepalive_due(idle_ms: u64) -> (r: bool)
    ensures
        r == (idle_ms > 90_000),
{
    idle_ms > 90_000
}

/// The fetched state is reused instead of fetching again for a minute.
pub fn fetched_recently(now: i64, last_fetch_at: i64) -> (r: bool)
    ensures
        r == (now - last_fetch_at < 60_000),
{
    (now as i128) - (last_fetch_at as i128) < 60_000
}

// ── what is shown ──

/// The state to show for fresh upstream data: the derived state with its
/// second line and the kind of source it came from added to its detail.
pub open spec fn fresh_state_v(upstream: JsonV, via: Seq<char>, now: i64, zone: Option<Seq<char>>) -> JsonV {
    let s = derived_state(upstream, now);
    let k = state_kind(s);
    let d = state_detail(s);
    state_v(k, fields_put(fields_put(d, "sub"@, sub_pair(k, d, now, zone)), "via"@, JsonV::Str(via)))
}

/// Derives the state to show from fresh upstream data in a resolved zone.
pub fn fresh_state(upstream: &Json, via: &str, now: i64, zone: Option<&str>) -> (r: Json)
    requires
        time_ok(now as int),
    ensures
        r@ == fresh_state_v(upstream@, via@, now, match zone {
            Some(z) => Some(z@),
            None => None,
        }),
{
    let s = crate::resets::derive(upstream, now);
    let kind: &str = match s.get("kind") {
        Some(k) => match k.as_str() {
            Some(x) => x,
            None => "offline",
        },
        None => "offline",
    };
    let dj = match s.get("detail") {
        Some(x) => x.deep_copy(),
        None => Json::Null,
    };
    let mut d: Vec<(String, Json)> = match dj {
        Json::Obj(v) => v,
        _ => {
            let e: Vec<(String, Json)> = Vec::new();
            proof {
                assert(jview_fields(e@) =~= Seq::<(Seq<char>, JsonV)>::empty());
            }
            e
        },
    };
    assert(jview_fields(d@) == state_detail(s@));
    let sub = sub_pair_exec(kind, &d, now, zone);
    obj_set(&mut d, "sub", sub);
    obj_set(&mut d, "via", Json::text(via));
    state_json(kind, d)
}

/// The fingerprint of what the user sees: a state is pushed again only when it changes.
pub open spec fn push_key_v(s: JsonV) -> JsonV {
    let d = get(s, "detail"@);
    let or_null = |v: Option<JsonV>|
        match v {
            Some(x) => x,
            None => JsonV::Null,
        };
    JsonV::Obj(
        seq![
            ("k"@, or_null(get(s, "kind"@))),
            ("sub"@, or_null(oget(d, "sub"@))),
            ("d"@, match oget(d, "daysSince"@) {
                Some(JsonV::Num(n)) => JsonV::Num(Number::Int(sat_i64(n.floor_scaled(1)))),
                _ => JsonV::Null,
            }),
            ("s"@, or_null(oget(d, "scheduledISO"@))),
            ("w"@, or_null(oget(d, "windowEnd"@))),
            ("t"@, or_null(oget(d, "targetStart"@))),
        ],
    )
}

fn copy_or_null(v: Option<&Json>) -> (r: Json)
    ensures
        r@ == match opt_view(v) {
            Some(x) => x,
            None => JsonV::Null,
        },
{
    match v {
        Some(x) => x.deep_copy(),
        None => Json::Null,
    }
}

/// The fingerprint of a state.
pub fn push_key(s: &Json) -> (r: Json)
    ensures
        r@ == push_key_v(s@),
{
    let d = s.get("detail");
    let sub = match d {
        Some(x) => x.get("sub"),
        None => None,
    };
    let days = match d {
        Some(x) => x.get("daysSince"),
        None => None,
    };
    let sched = match d {
        Some(x) => x.get("scheduledISO"),
        None => None,
    };
    let wend = match d {
        Some(x) => x.get("windowEnd"),
        None => None,
    };
    let tstart = match d {
        Some(x) => x.get("targetStart"),
        None => None,
    };
    let dj = match days {
        Some(Json::Num(n)) => Json::Num(Number::Int(n.floor_mul(1))),
        _ => Json::Null,
    };
    let mut f: Vec<(String, Json)> = Vec::new();
    proof {
        assert(jview_fields(f@) =~= Seq::<(Seq<char>, JsonV)>::empty());
    }
    push_field(&mut f, "k", copy_or_null(s.get("kind")));
    push_field(&mut f, "sub", copy_or_null(sub));
    push_field(&mut f, "d", dj);
    push_field(&mut f, "s", copy_or_null(sched));
    push_field(&mut f, "w", copy_or_null(wend));
    push_field(&mut f, "t", copy_or_null(tstart));
    let r = Json::Obj(f);
    assert(r@ == JsonV::Obj(jview_fields(f@)));
    assert(jview_fields(f@) =~= match push_key_v(s@) {
        JsonV::Obj(fs) => fs,
        _ => Seq::empty(),
    });
    r
}

/// The first 120 characters of a text (the pushed state, as logged).
pub fn brief120(text: &str) -> (r: String)
    ensures
        r@ == (if text@.len() <= 120 {
            text@
        } else {
            text@.take(120)
        }),
{
    let n = text.unicode_len();
    if n <= 120 {
        text.to_string()
    } else {
        text.substring_char(0, 120).to_string()
    }
}

/// The expression that shows a state (its JSON text) in the widget.
pub fn set_state_expr(state_json: &str) -> (r: String)
    ensures
        r@ == "window.__ith && window.__ith.setState("@ + state_json@ + ")"@,
{
    join3("window.__ith && window.__ith.setState(", state_json, ")")
}

/// The expression that gives the widget its avatar (its JSON text).
pub fn set_avatar_expr(avatar_json: &str) -> (r: String)
    ensures
        r@ == "window.__ith.setAvatar("@ + avatar_json@ + ")"@,
{
    join3("window.__ith.setAvatar(", avatar_json, ")")
}

/// The main window among the page targets: a page at `app://-/index.html`
/// without an `initialRoute=` parameter (other windows load the same page with one).
pub open spec fn is_main_target(t: JsonV) -> bool {
    &&& oas_str(get(t, "type"@)) == Some("page"@)
    &&& match oas_str(get(t, "url"@)) {
        Some(u) => u.len() >= "app://-/index.html"@.len() && u.subrange(
            0,
            "app://-/index.html"@.len() as int,
        ) == "app://-/index.html"@ && !contains(u, "initialRoute="@),
        None => false,
    }
}

pub fn main_target_check(t: &Json) -> (r: bool)
    ensures
        r == is_main_target(t@),
{
    let is_page = match t.get("type") {
        Some(x) => match x.as_str() {
            Some(s) => crate::text::str_eq(s, "page"),
            None => false,
        },
        None => false,
    };
    if !is_page {
        return false;
    }
    let url = match t.get("url") {
        Some(x) => match x.as_str() {
            Some(s) => s,
            None => return false,
        },
        None => return false,
    };
    let uv = crate::text::to_chars(url);
    let pre = crate::text::to_chars("app://-/index.html");
    if !crate::text::matches_at(&uv, &pre, 0) {
        return false;
    }
    let route = crate::text::to_chars("initialRoute=");
    match crate::text::find_from_exec(&uv, &route, 0) {
        Some(i) => {
            assert(occurs_at(url@, "initialRoute="@, i as int));
            false
        },
        None => {
            assert forall|i: int| !occurs_at(url@, "initialRoute="@, i) by {
                if 0 <= i {
                    assert(!occurs_at(uv@, route@, i));
                }
            }
            true
        },
    }
}

/// The index of the first main-window target in a target list.
pub fn find_main_target(list: &Vec<Json>) -> (r: Option<usize>)
    ensures
        match r {
            Some(i) => i < list@.len() && is_main_target(list@[i as int]@) && forall|j: int|
                0 <= j < i ==> !is_main_target(#[trigger] list@[j]@),
            None => forall|j: int| 0 <= j < list@.len() ==> !is_main_target(#[trigger] list@[j]@),
        },
{
    let mut i: usize = 0;
    while i < list.len()
        invariant
            i <= list@.len(),
            forall|j: int| 0 <= j < i ==> !is_main_target(#[trigger] list@[j]@),
        decreases list@.len() - i,
    {
        if main_target_check(&list[i]) {
            return Some(i);
        }
        i = i + 1;
    }
    None
}


// ── the daemon's rounds ──

/// What a round of the main loop does with the app.
#[derive(PartialEq, Eq, Structural)]
pub enum RoundKind {
    /// The app is not running: wait for it (launching it only when allowed).
    AppAbsent,
    /// Attach over the inspector (no debug port, inspector usable).
    Inspector,
    /// Use the debug port, restarting the app with it when needed.
    DebugPort,
}

pub fn round_kind(app_running: bool, prefer_inspector: bool, inspector_ok: bool) -> (r: RoundKind)
    ensures
        r == (if !app_running {
            RoundKind::AppAbsent
        } else if prefer_inspector && inspector_ok {
            RoundKind::Inspector
        } else {
            RoundKind::DebugPort
        }),
{
    if !app_running {
        RoundKind::AppAbsent
    } else if prefer_inspector && inspector_ok {
        RoundKind::Inspector
    } else {
        RoundKind::DebugPort
    }
}

/// The app may be launched only with `--launch`, or on the first run after
/// installation (its marker file is present).
pub fn may_launch(launch_flag: bool, first_run: bool) -> (r: bool)
    ensures
        r == (launch_flag || first_run),
{
    launch_flag || first_run
}

/// How to get the debug port up.
#[derive(PartialEq, Eq, Structural)]
pub enum EnsurePlan {
    /// The port is already up.
    Ready,
    /// The app runs without the port and may not be restarted (`--no-quit`).
    RefuseRestart,
    /// The app runs without the port: restart it with the port, if the cap allows.
    Restart,
    /// The app is absent and may be launched: launch it with the port, if the cap allows.
    Launch,
    /// Wait for the app.
    Wait,
}

pub fn ensure_plan(port_up: bool, app_running: bool, no_quit: bool, launch_if_absent: bool) -> (r: EnsurePlan)
    ensures
        r == (if port_up {
            EnsurePlan::Ready
        } else if app_running {
            if no_quit {
                EnsurePlan::RefuseRestart
            } else {
                EnsurePlan::Restart
            }
        } else if launch_if_absent {
            EnsurePlan::Launch
        } else {
            EnsurePlan::Wait
        }),
{
    if port_up {
        EnsurePlan::Ready
    } else if app_running {
        if no_quit {
            EnsurePlan::RefuseRestart
        } else {
            EnsurePlan::Restart
        }
    } else if launch_if_absent {
        EnsurePlan::Launch
    } else {
        EnsurePlan::Wait
    }
}

/// The update check runs once a day (the first one at the first poll).
pub fn update_due(since_last_check_ms: Option<u64>) -> (r: bool)
    ensures
        r == (match since_last_check_ms {
            Some(t) => t >= 86_400_000,
            None => true,
        }),
{
    match since_last_check_ms {
        Some(t) => t >= 86_400_000,
        None => true,
    }
}

/// The label of an unmatched menu item the widget reported, if the event is one.
pub fn unmatched_label(kind: &str) -> (r: Option<String>)
    ensures
        match r {
            Some(l) => kind@.len() >= unmatched_prefix().len() && kind@.subrange(
                0,
                unmatched_prefix().len() as int,
            ) == unmatched_prefix() && l@ == kind@.skip(unmatched_prefix().len() as int),
            None => !(kind@.len() >= unmatched_prefix().len() && kind@.subrange(
                0,
                unmatched_prefix().len() as int,
            ) == unmatched_prefix()),
        },
{
    strip_prefix_chars(kind, "menu-unmatched:")
}

} // verus!
