//! What the inspector channel computes: the restore expression replayed after
//! a page reload, the widget's queued events, the check that the inspector
//! belongs to the app, and the process ids read from `pgrep` and the lock file.
use vstd::prelude::*;
use crate::json::{Json, JsonV, get, jview_seq, lemma_jview_seq_len, oas_str};
use crate::num::Number;
use crate::text::{is_ws, is_ws_exec, join3};

verus! {

broadcast use vstd::string::group_string_axioms;

/// The expression replayed after a page reload: the avatar, then the latest
/// state (each given as its JSON text), whichever are present.
pub open spec fn restore_text(avatar: Option<Seq<char>>, state: Option<Seq<char>>) -> Seq<char> {
    (match avatar {
        Some(a) => "window.__ith&&window.__ith.setAvatar("@ + a + ");"@,
        None => Seq::empty(),
    }) + (match state {
        Some(s) => "window.__ith&&window.__ith.setState("@ + s + ");"@,
        None => Seq::empty(),
    })
}

pub fn restore_expr(avatar: Option<&str>, state: Option<&str>) -> (r: String)
    ensures
        r@ == restore_text(
            match avatar {
                Some(a) => Some(a@),
                None => None,
            },
            match state {
                Some(s) => Some(s@),
                None => None,
            },
        ),
{
    let mut s = String::new();
    proof {
        reveal_strlit("");
    }
    match avatar {
        Some(av) => {
            let piece = join3("window.__ith&&window.__ith.setAvatar(", av, ");");
            s.append(piece.as_str());
        },
        None => {},
    }
    match state {
        Some(st) => {
            let piece = join3("window.__ith&&window.__ith.setState(", st, ");");
            s.append(piece.as_str());
        },
        None => {
            assert(s@ + Seq::<char>::empty() =~= s@);
        },
    }
    s
}

/// One queued widget event: its kind (empty when not a string) and its time
/// (0 when not an integer).
pub open spec fn pending_event(e: JsonV) -> (Seq<char>, i64) {
    (
        match oas_str(get(e, "k"@)) {
            Some(k) => k,
            None => Seq::empty(),
        },
        match get(e, "t"@) {
            Some(JsonV::Num(Number::Int(t))) => t,
            _ => 0,
        },
    )
}

/// The reply of the probe run in the page, `{a, p}`: whether the widget is
/// alive (`a` is `true`), and its queued events.
pub open spec fn pending_v(v: Option<JsonV>) -> (bool, Seq<(Seq<char>, i64)>) {
    match v {
        Some(x) => (
            get(x, "a"@) == Some(JsonV::Bool(true)),
            match get(x, "p"@) {
                Some(JsonV::Arr(es)) => es.map_values(|e: JsonV| pending_event(e)),
                _ => Seq::empty(),
            },
        ),
        None => (false, Seq::empty()),
    }
}

/// Reads the probe's reply (none when the probe failed).
pub fn pending_of(v: Option<&Json>) -> (r: (bool, Vec<(String, i64)>))
    ensures
        r.0 == pending_v(crate::json::opt_view(v)).0,
        r.1@.map_values(|e: (String, i64)| (e.0@, e.1)) == pending_v(crate::json::opt_view(v)).1,
{
    let mut out: Vec<(String, i64)> = Vec::new();
    let x = match v {
        Some(x) => x,
        None => {
            assert(out@.map_values(|e: (String, i64)| (e.0@, e.1)) =~= Seq::<(Seq<char>, i64)>::empty());
            return (false, out);
        },
    };
    let alive = match x.get("a") {
        Some(Json::Bool(b)) => *b,
        _ => false,
    };
    let es = match x.get("p") {
        Some(Json::Arr(es)) => es,
        _ => {
            assert(out@.map_values(|e: (String, i64)| (e.0@, e.1)) =~= Seq::<(Seq<char>, i64)>::empty());
            return (alive, out);
        },
    };
    let ghost ev = jview_seq(es@);
    proof {
        lemma_jview_seq_len(es@);
    }
    let mut i: usize = 0;
    while i < es.len()
        invariant
            i <= es@.len(),
            ev == jview_seq(es@),
            ev.len() == es@.len(),
            forall|j: int| 0 <= j < es@.len() ==> #[trigger] ev[j] == es@[j]@,
            out@.map_values(|e: (String, i64)| (e.0@, e.1)) == ev.take(i as int).map_values(
                |e: JsonV| pending_event(e),
            ),
        decreases es@.len() - i,
    {
        let e = &es[i];
        let k = match e.get("k") {
            Some(kv) => match kv.as_str() {
                Some(s) => s.to_string(),
                None => String::new(),
            },
            None => String::new(),
        };
        let t = match e.get("t") {
            Some(Json::Num(Number::Int(t))) => *t,
            _ => 0,
        };
        proof {
            reveal_strlit("");
        }
        let ghost prev = out@;
        let ghost item = (k@, t);
        out.push((k, t));
        proof {
            assert(out@ == prev.push(out@.last()));
            assert(out@.map_values(|e: (String, i64)| (e.0@, e.1)) =~= prev.map_values(
                |e: (String, i64)| (e.0@, e.1),
            ).push(item));
        }
        proof {
            assert(ev[i as int] == es@[i as int]@);
            assert((k@, t) == pending_event(ev[i as int]));
            assert(ev.take(i + 1) =~= ev.take(i as int).push(ev[i as int]));
            assert(out@.map_values(|e: (String, i64)| (e.0@, e.1)) =~= ev.take(i + 1).map_values(
                |e: JsonV| pending_event(e),
            ));
        }
        i = i + 1;
    }
    assert(ev.take(es@.len() as int) =~= ev);
    (alive, out)
}

/// The inspector answered `process.pid` with the app's main process id.
pub fn owner_matches(v: &Json, pid: u32) -> (r: bool)
    ensures
        r == (v@ == JsonV::Num(Number::Int(pid as i64))),
{
    match v {
        Json::Num(Number::Int(x)) => *x == pid as i64,
        _ => false,
    }
}

// ── process ids ──

pub open spec fn is_digit(c: char) -> bool {
    '0' <= c && c <= '9'
}

pub open spec fn digits_value(s: Seq<char>) -> int
    decreases s.len(),
{
    if s.len() == 0 {
        0
    } else {
        digits_value(s.drop_last()) * 10 + ((s.last() as u32) - ('0' as u32))
    }
}

/// Every character is an ASCII digit.
pub open spec fn all_digits(b: Seq<char>) -> bool {
    forall|i: int| 0 <= i < b.len() ==> is_digit(#[trigger] b[i])
}

/// The digits `u32::from_str` reads: the text without one leading `+`.
pub open spec fn u32_body(s: Seq<char>) -> Seq<char> {
    if s.len() > 0 && s[0] == '+' {
        s.drop_first()
    } else {
        s
    }
}

/// `u32::from_str`: an optional `+`, then one or more ASCII digits, at most `u32::MAX`.
pub open spec fn parse_u32(s: Seq<char>) -> Option<u32> {
    let body = u32_body(s);
    if body.len() > 0 && all_digits(body) && digits_value(body) <= u32::MAX {
        Some(digits_value(body) as u32)
    } else {
        None
    }
}

/// `str::trim`: without leading and trailing whitespace.
pub open spec fn trim_start_at(s: Seq<char>, i: int) -> int
    decreases s.len() - i,
{
    if 0 <= i < s.len() && is_ws(s[i]) {
        trim_start_at(s, i + 1)
    } else {
        i
    }
}

pub open spec fn trim_end_at(s: Seq<char>, lo: int, j: int) -> int
    decreases j - lo,
{
    if lo < j && is_ws(s[j - 1]) {
        trim_end_at(s, lo, j - 1)
    } else {
        j
    }
}

pub open spec fn trimmed(s: Seq<char>) -> Seq<char> {
    let a = trim_start_at(s, 0);
    s.subrange(a, trim_end_at(s, a, s.len() as int))
}

fn trim_chars(s: &Vec<char>) -> (r: Vec<char>)
    ensures
        r@ == trimmed(s@),
{
    let mut a: usize = 0;
    while a < s.len() && is_ws_exec(s[a])
        invariant
            a <= s.len(),
            trim_start_at(s@, 0) == trim_start_at(s@, a as int),
        decreases s.len() - a,
    {
        a = a + 1;
    }
    let mut b: usize = s.len();
    while a < b && is_ws_exec(s[b - 1])
        invariant
            a <= b <= s.len(),
            trim_end_at(s@, a as int, s@.len() as int) == trim_end_at(s@, a as int, b as int),
        decreases b - a,
    {
        b = b - 1;
    }
    crate::text::slice(s, a, b)
}

fn parse_u32_chars(s: &Vec<char>) -> (r: Option<u32>)
    ensures
        r == parse_u32(s@),
{
    let start: usize = if s.len() > 0 && s[0] == '+' {
        1
    } else {
        0
    };
    let ghost body = if s@.len() > 0 && s@[0] == '+' {
        s@.drop_first()
    } else {
        s@
    };
    assert(body =~= s@.skip(start as int));
    if start >= s.len() {
        return None;
    }
    let mut acc: u64 = 0;
    let mut i: usize = start;
    while i < s.len()
        invariant
            start <= i <= s.len(),
            start < s.len(),
            body == s@.skip(start as int),
            body == u32_body(s@),
            acc == digits_value(s@.subrange(start as int, i as int)),
            acc <= u32::MAX,
            forall|j: int| start <= j < i ==> is_digit(#[trigger] s@[j]),
        decreases s.len() - i,
    {
        let c = s[i];
        if !('0' <= c && c <= '9') {
            proof {
                let k = i - start;
                assert(body[k] == s@[i as int]);
                assert(!is_digit(body[k]));
                assert(!all_digits(body));
            }
            return None;
        }
        assert(s@.subrange(start as int, i + 1).drop_last() =~= s@.subrange(start as int, i as int));
        let d = (c as u32 - '0' as u32) as u64;
        let next = acc * 10 + d;
        if next > 0xffff_ffff {
            proof {
                assert(body.take(i + 1 - start) =~= s@.subrange(start as int, i + 1));
                if all_digits(body) {
                    lemma_digits_value_grows(body, i + 1 - start);
                }
            }
            return None;
        }
        acc = next;
        i = i + 1;
    }
    assert(s@.subrange(start as int, s@.len() as int) =~= body);
    assert forall|j: int| 0 <= j < body.len() implies is_digit(#[trigger] body[j]) by {
        assert(body[j] == s@[j + start]);
    }
    assert(all_digits(body));
    Some(acc as u32)
}

proof fn lemma_digits_value_grows(s: Seq<char>, k: int)
    requires
        0 <= k <= s.len(),
        all_digits(s),
    ensures
        digits_value(s.take(k)) <= digits_value(s),
    decreases s.len(),
{
    if k < s.len() {
        assert(s.drop_last().take(k) =~= s.take(k));
        lemma_digits_value_grows(s.drop_last(), k);
        lemma_digits_value_nonneg(s.drop_last());
    } else {
        assert(s.take(k) =~= s);
    }
}

proof fn lemma_digits_value_nonneg(s: Seq<char>)
    requires
        all_digits(s),
    ensures
        digits_value(s) >= 0,
    decreases s.len(),
{
    if s.len() > 0 {
        lemma_digits_value_nonneg(s.drop_last());
    }
}

/// The process id a text holds (`trim` then `parse::<u32>`): the lock file's
/// content, or one line of `pgrep`'s output.
pub fn parse_pid(text: &str) -> (r: Option<u32>)
    ensures
        r == parse_u32(trimmed(text@)),
{
    let v = crate::text::to_chars(text);
    let t = trim_chars(&v);
    parse_u32_chars(&t)
}

/// The process ids in `pgrep`'s output: each line that reads as one, in order.
pub open spec fn pids_scan(s: Seq<char>, start: int, i: int) -> Seq<u32>
    decreases s.len() - i,
{
    if i >= s.len() || s[i] == '\n' {
        let here = match parse_u32(trimmed(s.subrange(start, i))) {
            Some(p) => seq![p],
            None => Seq::empty(),
        };
        if i >= s.len() {
            here
        } else {
            here + pids_scan(s, i + 1, i + 1)
        }
    } else {
        pids_scan(s, start, i + 1)
    }
}

pub fn pid_candidates(out: &str) -> (r: Vec<u32>)
    ensures
        r@ == pids_scan(out@, 0, 0),
{
    let sv = crate::text::to_chars(out);
    let n = sv.len();
    let mut pids: Vec<u32> = Vec::new();
    let mut start: usize = 0;
    let mut i: usize = 0;
    loop
        invariant
            n == sv@.len(),
            sv@ == out@,
            start <= i <= n,
            pids@ + pids_scan(out@, start as int, i as int) == pids_scan(out@, 0, 0),
        decreases n - i,
    {
        if i == n || sv[i] == '\n' {
            let line = crate::text::slice(&sv, start, i);
            let t = trim_chars(&line);
            let p = parse_u32_chars(&t);
            let ghost here = match p {
                Some(x) => seq![x],
                None => Seq::<u32>::empty(),
            };
            match p {
                Some(x) => pids.push(x),
                None => {},
            }
            if i == n {
                assert(pids_scan(out@, start as int, i as int) == here);
                assert(pids@ =~= pids_scan(out@, 0, 0));
                return pids;
            }
            assert(pids_scan(out@, start as int, i as int) == here + pids_scan(out@, i + 1, i + 1));
            i = i + 1;
            start = i;
            assert(pids@ + pids_scan(out@, start as int, i as int) =~= pids_scan(out@, 0, 0));
        } else {
            i = i + 1;
        }
    }
}


// ── expressions run in the app's main process ──

/// The app's main window among its web contents: `app://-/index.html`
/// without an `initialRoute=` parameter.
pub const MAIN_WC: &'static str = "process.mainModule.require('electron').webContents.getAllWebContents().find(w=>{const u=w.getURL();return u.startsWith('app://-/index.html')&&!u.includes('initialRoute=')})";

/// The widget's refresh hook while no binding is attached: refresh and
/// unmatched-menu events are queued in `__ithPendingRefresh` (at most 50).
pub const REFRESH_SHIM: &'static str = "window.ithRefresh=window.ithRefresh||function(k){try{var p=window.__ithPendingRefresh=window.__ithPendingRefresh||[];p.push({k:String(k||''),t:Date.now()});if(p.length>50)p.splice(0,p.length-50)}catch(e){}}";

/// Runs a page expression (given as a JSON string literal) in the main
/// window, failing with "no main window" when there is none.
pub fn page_eval_expr(src_literal: &str) -> (r: String)
    ensures
        r@ == "(()=>{const w="@ + MAIN_WC@ + ";return w?w.executeJavaScript("@ + src_literal@
            + "):Promise.reject(new Error('no main window'))})()"@,
{
    let mut r = join3("(()=>{const w=", MAIN_WC, ";return w?w.executeJavaScript(");
    r.append(src_literal);
    r.append("):Promise.reject(new Error('no main window'))})()");
    r
}

/// What is injected into a page: the refresh hook, then the widget's source.
pub fn inject_payload(widget_src: &str) -> (r: String)
    ensures
        r@ == REFRESH_SHIM@ + "\n"@ + widget_src@,
{
    join3(REFRESH_SHIM, "\n", widget_src)
}

/// The one-time setup in the main process (given the injected payload and the
/// restore expression as JSON string literals): hook every web contents so
/// that a finished load of the main window injects the payload and replays
/// the restore expression, once per process; then store the restore expression.
pub fn init_expr(payload_literal: &str, restore_literal: &str) -> (r: String)
    ensures
        r@ == "(()=>{const e=process.mainModule.require('electron');if((globalThis.__ithInit||0)<2){globalThis.__ithInit=2;const ok=c=>{const u=c.getURL();return u.startsWith('app://-/index.html')&&!u.includes('initialRoute=')};const inj=c=>c.executeJavaScript("@
            + payload_literal@
            + ").then(()=>c.executeJavaScript(globalThis.__ithRestore||'')).catch(()=>{});const hook=c=>c.on('did-finish-load',()=>{if(!c.isDestroyed()&&ok(c))inj(c)});e.app.on('web-contents-created',(ev,c)=>hook(c));e.webContents.getAllWebContents().forEach(hook);}globalThis.__ithRestore="@
            + restore_literal@ + ";return 'ok'})()"@,
{
    let mut r = join3(
        "(()=>{const e=process.mainModule.require('electron');if((globalThis.__ithInit||0)<2){globalThis.__ithInit=2;const ok=c=>{const u=c.getURL();return u.startsWith('app://-/index.html')&&!u.includes('initialRoute=')};const inj=c=>c.executeJavaScript(",
        payload_literal,
        ").then(()=>c.executeJavaScript(globalThis.__ithRestore||'')).catch(()=>{});const hook=c=>c.on('did-finish-load',()=>{if(!c.isDestroyed()&&ok(c))inj(c)});e.app.on('web-contents-created',(ev,c)=>hook(c));e.webContents.getAllWebContents().forEach(hook);}globalThis.__ithRestore=",
    );
    r.append(restore_literal);
    r.append(";return 'ok'})()");
    r
}

} // verus!
