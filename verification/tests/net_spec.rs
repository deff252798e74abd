// Scenario tests of the fetch chain. Each source is a canned reply, and the
// chain is driven the way the daemon drives it: ask for the next request,
// answer it, hand the reply back. An unregistered path fails like a refused
// connection; a status code fails with the code and the host; a body that
// is not JSON fails a JSON request with "not json".
use is_tibo_happy::json::Json;
use is_tibo_happy::net::{mirror_envelope, relay_json, FetchChain, Reply, Sources, SOURCE_DIRECT};
use is_tibo_happy::num::Number;
use serde_json::Value;
use std::collections::HashMap;

fn v<T: Clone + Into<Value>>(x: &T) -> Value {
    x.clone().into()
}

fn obj(fields: Vec<(&str, Value)>) -> Value {
    Value::Object(fields.into_iter().map(|(k, x)| (k.to_string(), x)).collect())
}


fn float_number(f: f64) -> Number {
    if f == 0.0 {
        return Number::Int(0);
    }
    let bits = f.to_bits();
    let neg = bits >> 63 == 1;
    let e = ((bits >> 52) & 0x7ff) as i32;
    let frac = (bits & ((1u64 << 52) - 1)) as i64;
    let (m, x) = if e == 0 { (frac, -1074) } else { (frac | (1i64 << 52), e - 1075) };
    Number::Float { mant: if neg { -m } else { m }, exp: x }
}

fn to_json(v: &Value) -> Json {
    match v {
        Value::Null => Json::Null,
        Value::Bool(b) => Json::Bool(*b),
        Value::Number(n) => match n.as_i64() {
            Some(i) => Json::Num(Number::Int(i)),
            None => Json::Num(float_number(n.as_f64().unwrap())),
        },
        Value::String(s) => Json::Str(s.clone()),
        Value::Array(a) => Json::Arr(a.iter().map(to_json).collect()),
        Value::Object(o) => Json::Obj(o.iter().map(|(k, x)| (k.clone(), to_json(x))).collect()),
    }
}

fn from_json(j: &Json) -> Value {
    match j {
        Json::Null => Value::Null,
        Json::Bool(b) => Value::Bool(*b),
        Json::Num(Number::Int(i)) => v(&(*i)),
        Json::Num(Number::Float { mant, exp }) => v(&((*mant as f64) * 2f64.powi(*exp))),
        Json::Num(Number::Ratio { num, den }) => v(&(*num as f64 / *den as f64)),
        Json::Str(s) => Value::String(s.clone()),
        Json::Arr(a) => Value::Array(a.iter().map(from_json).collect()),
        Json::Obj(o) => Value::Object(o.iter().map(|(k, x)| (k.clone(), from_json(x))).collect()),
    }
}

#[derive(Clone)]
enum R {
    Text(String),
    Json(Value),
    Status(u16),
}

const BASE: &str = "http://127.0.0.1:7";

struct Stub {
    map: HashMap<String, R>,
}

fn serve(map: HashMap<String, R>) -> Stub {
    Stub { map }
}

fn now_ms() -> i64 {
    is_tibo_happy::time::now_ms()
}

fn sources(base: &str) -> Sources {
    Sources {
        primary: format!("{base}/primary"),
        mirrors: vec![format!("{base}/raw"), format!("{base}/jsd")],
        direct: format!("{base}/direct"),
        backup: format!("{base}/backup"),
    }
}

fn answer(stub: &Stub, url: &str, page: bool) -> Reply {
    let path = url.strip_prefix(BASE).unwrap_or(url);
    let host = is_tibo_happy::net::host(url).to_string();
    match stub.map.get(path) {
        None => Reply::Failed(format!("Connection refused {host}")),
        Some(R::Status(c)) => Reply::Failed(format!("{c} {host}")),
        Some(R::Json(v)) => {
            if page {
                Reply::Page(v.to_string())
            } else {
                Reply::Json(to_json(v))
            }
        }
        Some(R::Text(t)) => {
            if page {
                Reply::Page(t.clone())
            } else {
                match serde_json::from_str::<Value>(t) {
                    Ok(v) => Reply::Json(to_json(&v)),
                    Err(e) => Reply::Failed(format!("not json: {e}")),
                }
            }
        }
    }
}

fn fetch_forecast_from(stub: &Stub, now: i64) -> Result<(Value, &'static str), String> {
    let srcs = sources(BASE);
    let mut chain = FetchChain::new();
    while let Some(req) = chain.request(&srcs) {
        let reply = answer(stub, &req.url, req.page);
        if let Some((j, via)) = chain.feed(&srcs, reply, now) {
            return Ok((from_json(&j), via));
        }
    }
    Err(chain.failure())
}

fn env(age_ms: i64, upstream: Value) -> R {
    R::Json(
        obj(vec![("schema", Value::from(1i64)), ("fetched_at", v(&(is_tibo_happy::time::iso_pub(now_ms() - age_ms)))), ("source_url", v(&(SOURCE_DIRECT))), ("upstream", v(&(upstream)))]),
    )
}

fn forecast() -> Value {
    obj(vec![("last_reset_at", Value::from("2026-09-19T00:00:00Z"))])
}
fn resets() -> Value {
    obj(vec![("scheduled", Value::Null), ("events", Value::Array(vec![obj(vec![("announced_at", Value::from("2026-09-19T00:00:00Z"))])]))])
}
const BP_PAGE: &str = "<div data-product-id=\"codex\"><li class=\"product-tracking-scheduled-reset\"><span data-signal-reset-status=\"scheduled\">已排期</span></li>\
    <time class=\"product-tracking-last-confirmed-reset\" dateTime=\"2026-09-12T08:09:17.000Z\"></time>\
    \\\"targetIso\\\":\\\"2026-09-22T07:00:00.000Z\\\"";

#[test]
fn primary_resets_json_wins() {
    let stub = serve(HashMap::from([("/primary".into(), R::Json(resets()))]));
    let (f, via) = fetch_forecast_from(&stub, now_ms()).unwrap();
    assert_eq!(via, "primary");
    assert_eq!(f, resets());
}

#[test]
fn backup_betteropc_page_parsed() {
    let stub = serve(HashMap::from([("/backup".into(), R::Text(BP_PAGE.into()))]));
    let (f, via) = fetch_forecast_from(&stub, now_ms()).unwrap();
    assert_eq!(via, "backup");
    assert_eq!(f["source"], "betteropc");
    assert_eq!(f["commitment"]["scheduled_for"], "2026-09-22T07:00:00.000Z");
    assert_eq!(f["last_reset_at"], "2026-09-12T08:09:17.000Z");
}

#[test]
fn primary_non_json_falls_to_mirror() {
    let stub = serve(HashMap::from([
        ("/primary".into(), R::Text("<html>just a moment</html>".into())),
        ("/raw".into(), env(600_000, forecast())),
    ]));
    let (_, via) = fetch_forecast_from(&stub, now_ms()).unwrap();
    assert_eq!(via, "mirror");
}

#[test]
fn primary_down_mirror_wins() {
    let stub = serve(HashMap::from([("/raw".into(), env(600_000, forecast()))]));
    assert_eq!(fetch_forecast_from(&stub, now_ms()).unwrap().1, "mirror");
}

#[test]
fn fresh_raw_mirror_wins() {
    let stub = serve(HashMap::from([("/raw".into(), env(600_000, forecast()))]));
    let (f, via) = fetch_forecast_from(&stub, now_ms()).unwrap();
    assert_eq!(via, "mirror");
    assert_eq!(f, forecast());
}

#[test]
fn raw_down_jsdelivr_mirror() {
    let stub = serve(HashMap::from([("/jsd".into(), env(3_600_000, forecast()))]));
    assert_eq!(fetch_forecast_from(&stub, now_ms()).unwrap().1, "mirror");
}

#[test]
fn stale_mirrors_fall_to_direct() {
    let stub = serve(HashMap::from([
        ("/raw".into(), env(7 * 3600_000, forecast())),
        ("/jsd".into(), env(8 * 3600_000, forecast())),
        ("/direct".into(), R::Json(forecast())),
    ]));
    assert_eq!(fetch_forecast_from(&stub, now_ms()).unwrap().1, "direct");
}

#[test]
fn mirror_upstream_array_or_string_skipped() {
    let stub = serve(HashMap::from([
        ("/raw".into(), env(0, Value::Array(vec![]))),
        ("/jsd".into(), env(0, Value::from("<html>"))),
        ("/direct".into(), R::Json(forecast())),
    ]));
    assert_eq!(fetch_forecast_from(&stub, now_ms()).unwrap().1, "direct");
}

#[test]
fn mirror_wrong_schema_not_json_404_skipped() {
    let stub = serve(HashMap::from([
        ("/raw".into(), R::Json(obj(vec![("schema", Value::from(99i64))]))),
        ("/jsd".into(), R::Text("not json at all".into())),
        ("/direct".into(), R::Json(forecast())),
    ]));
    assert_eq!(fetch_forecast_from(&stub, now_ms()).unwrap().1, "direct");
    let stub = serve(HashMap::from([
        ("/raw".into(), R::Status(404)),
        ("/jsd".into(), R::Status(404)),
        ("/direct".into(), R::Json(forecast())),
    ]));
    assert_eq!(fetch_forecast_from(&stub, now_ms()).unwrap().1, "direct");
}

#[test]
fn direct_html_falls_to_backup() {
    let stub = serve(HashMap::from([
        ("/direct".into(), R::Text("<html>redesign</html>".into())),
        ("/backup".into(), R::Text(BP_PAGE.into())),
    ]));
    let (f, via) = fetch_forecast_from(&stub, now_ms()).unwrap();
    assert_eq!(via, "backup");
    assert_eq!(f["source"], "betteropc");
}

#[test]
fn direct_5xx_to_backup() {
    let stub = serve(HashMap::from([
        ("/direct".into(), R::Status(503)),
        ("/backup".into(), R::Text(BP_PAGE.into())),
    ]));
    assert_eq!(fetch_forecast_from(&stub, now_ms()).unwrap().1, "backup");
}

#[test]
fn everything_down_throws_with_all_reasons() {
    let stub = serve(HashMap::new());
    let err = fetch_forecast_from(&stub, now_ms()).unwrap_err();
    assert!(err.starts_with("all sources failed:"));
    assert!(
        err.matches("refused").count() + err.matches('/').count() >= 5
            || err.matches("failed").count() >= 1
    );
    assert_eq!(err.matches("refused").count(), 5);
    assert_eq!(err.matches("; ").count(), 4);
}

#[test]
fn mirror_may_carry_backup_shaped_upstream() {
    let stub = serve(HashMap::from([("/raw".into(), env(60_000, resets()))]));
    let (f, via) = fetch_forecast_from(&stub, now_ms()).unwrap();
    assert_eq!(via, "mirror");
    assert_eq!(f, resets());
}

#[test]
fn mirror_envelope_shape() {
    let e = from_json(&mirror_envelope(&to_json(&obj(vec![("a", Value::from(1i64))])), "https://src", now_ms()));
    assert_eq!(e["schema"], 1);
    assert_eq!(e["source_url"], "https://src");
    assert_eq!(e["upstream"], obj(vec![("a", Value::from(1i64))]));
    assert!(is_tibo_happy::time::parse_iso_pub(e["fetched_at"].as_str().unwrap()).is_some());
}

// ── the chain's own rules ──

#[test]
fn chain_asks_sources_in_order() {
    let srcs = sources(BASE);
    let mut chain = FetchChain::new();
    let mut urls = Vec::new();
    while let Some(req) = chain.request(&srcs) {
        urls.push((req.url.clone(), req.timeout_secs, req.page));
        let r = chain.feed(&srcs, Reply::Failed(format!("down {}", urls.len())), 0);
        assert!(r.is_none());
    }
    assert_eq!(
        urls,
        vec![
            (format!("{BASE}/primary"), 12, false),
            (format!("{BASE}/raw"), 8, false),
            (format!("{BASE}/jsd"), 8, false),
            (format!("{BASE}/direct"), 15, false),
            (format!("{BASE}/backup"), 12, true),
        ]
    );
    assert_eq!(
        chain.failure(),
        "all sources failed: down 1; down 2; down 3; down 4; down 5"
    );
}

#[test]
fn stale_mirror_reason_and_unrecognized_page_reason() {
    let srcs = sources(BASE);
    let mut chain = FetchChain::new();
    chain.feed(&srcs, Reply::Failed("x".into()), 0);
    assert!(chain.feed(&srcs, Reply::Json(to_json(&obj(vec![("schema", Value::from(1i64))]))), 0).is_none());
    assert_eq!(chain.errors.last().unwrap(), "mirror stale/invalid");
    chain.feed(&srcs, Reply::Failed("y".into()), 0);
    chain.feed(&srcs, Reply::Failed("z".into()), 0);
    assert!(chain.feed(&srcs, Reply::Page("<html></html>".into()), 0).is_none());
    assert_eq!(chain.errors.last().unwrap(), "betteropc: unrecognized page");
    assert!(chain.request(&srcs).is_none());
}

#[test]
fn default_sources_are_the_production_endpoints() {
    let s = Sources::default();
    assert_eq!(s.primary, "https://codex-resets.com/api/resets");
    assert_eq!(
        s.mirrors,
        vec![
            "https://raw.githubusercontent.com/elijah7x/is-tibo-happy/main/public/state.json".to_string(),
            "https://cdn.jsdelivr.net/gh/elijah7x/is-tibo-happy@main/public/state.json".to_string(),
        ]
    );
    assert_eq!(s.direct, "https://codex-reset.com/api/forecast");
    assert_eq!(s.backup, "https://betteropc.com/ai-products/reset-signals/codex");
}

#[test]
fn host_is_third_slash_piece() {
    assert_eq!(is_tibo_happy::net::host("https://codex-resets.com/api/resets"), "codex-resets.com");
    assert_eq!(is_tibo_happy::net::host("http://127.0.0.1:7"), "127.0.0.1:7");
    assert_eq!(is_tibo_happy::net::host("no-slashes"), "no-slashes");
    assert_eq!(is_tibo_happy::net::host("a/b"), "a/b");
}

#[test]
fn mirror_fresh_rules() {
    let now = is_tibo_happy::time::parse_iso_pub("2026-09-20T12:00:00Z").unwrap();
    let ok = |age: i64| {
        to_json(&obj(vec![("schema", Value::from(1i64)), ("fetched_at", v(&(is_tibo_happy::time::iso_pub(now - age)))), ("upstream", obj(vec![]))]))
    };
    assert!(is_tibo_happy::net::mirror_fresh(&ok(0), now));
    assert!(is_tibo_happy::net::mirror_fresh(&ok(6 * 3600_000 - 1), now));
    assert!(!is_tibo_happy::net::mirror_fresh(&ok(6 * 3600_000), now));
    assert!(!is_tibo_happy::net::mirror_fresh(
        &to_json(&obj(vec![("schema", Value::from(2i64)), ("fetched_at", Value::from("2026-09-20T12:00:00Z")), ("upstream", obj(vec![]))])),
        now
    ));
    assert!(!is_tibo_happy::net::mirror_fresh(
        &to_json(&obj(vec![("schema", Value::from(1.0_f64)), ("fetched_at", Value::from("2026-09-20T12:00:00Z")), ("upstream", obj(vec![]))])),
        now
    ));
    assert!(!is_tibo_happy::net::mirror_fresh(
        &to_json(&obj(vec![("schema", Value::from(1i64)), ("fetched_at", Value::from(5i64)), ("upstream", obj(vec![]))])),
        now
    ));
}

#[test]
fn relay_body_is_outermost_braces() {
    assert_eq!(relay_json("Title: x\nMarkdown Content:\n{\"a\": {\"b\": 1}} trailer"), Ok("{\"a\": {\"b\": 1}}"));
    assert_eq!(relay_json("no json here"), Err("relay: no json"));
    assert_eq!(relay_json("} then {"), Err("relay: no json in body"));
}

#[test]
fn envelope_fresh_for_six_hours() {
    let t = is_tibo_happy::time::parse_iso_pub("2026-09-20T12:00:00Z").unwrap();
    let e = mirror_envelope(&to_json(&obj(vec![("a", Value::from(1i64))])), "https://src", t);
    assert!(is_tibo_happy::net::mirror_fresh(&e, t));
    assert!(is_tibo_happy::net::mirror_fresh(&e, t + 6 * 3600_000 - 1));
    assert!(!is_tibo_happy::net::mirror_fresh(&e, t + 6 * 3600_000));
    let not_obj = mirror_envelope(&to_json(&Value::from("x")), "https://src", t);
    assert!(!is_tibo_happy::net::mirror_fresh(&not_obj, t));
}
