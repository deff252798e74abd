//! The fetch chain: which source is asked in which order, and what each reply
//! yields. The sources are tried in turn: the resets JSON, the mirrors (each a
//! signed-off envelope no older than six hours), the forecast JSON, and last
//! betteropc's page. The HTTP requests themselves are made by the caller,
//! which asks the chain for the next request and hands the reply back.
use vstd::prelude::*;
use crate::betteropc::{betteropc, jopt, parse_betteropc};
use crate::fields::push_field;
use crate::forecast::or_null;
use crate::json::{Json, JsonV, get, jview_fields, oas_str};
use crate::num::Number;
use crate::text::{find_from, find_from_exec, join2, join3, to_chars};
use crate::time::{four_digit_year, iso_pub, iso_text, parse_iso, parse_iso_pub};

verus! {

broadcast use vstd::string::group_string_axioms;

pub const REPO: &'static str = "elijah7x/is-tibo-happy";

pub const SOURCE_PRIMARY: &'static str = "https://codex-resets.com/api/resets";

pub const SOURCE_DIRECT: &'static str = "https://codex-reset.com/api/forecast";

pub const SOURCE_BACKUP: &'static str = "https://betteropc.com/ai-products/reset-signals/codex";

/// A mirror envelope older than this counts as stale (6 hours).
pub const MIRROR_MAX_AGE_MS: i64 = 21_600_000;

/// The sources of the chain; tests replace them with local servers.
pub struct Sources {
    pub primary: String,
    pub mirrors: Vec<String>,
    pub direct: String,
    pub backup: String,
}

impl Default for Sources {
    /// The production sources: the resets API, the raw GitHub and jsDelivr
    /// copies of the mirror, the forecast API and betteropc's page.
    fn default() -> (r: Self)
        ensures
            r.primary@ == SOURCE_PRIMARY@,
            r.mirrors@.len() == 2,
            r.mirrors@[0]@ == "https://raw.githubusercontent.com/"@ + REPO@ + "/main/public/state.json"@,
            r.mirrors@[1]@ == "https://cdn.jsdelivr.net/gh/"@ + REPO@ + "@main/public/state.json"@,
            r.direct@ == SOURCE_DIRECT@,
            r.backup@ == SOURCE_BACKUP@,
    {
        let mut mirrors: Vec<String> = Vec::new();
        mirrors.push(join3("https://raw.githubusercontent.com/", REPO, "/main/public/state.json"));
        mirrors.push(join3("https://cdn.jsdelivr.net/gh/", REPO, "@main/public/state.json"));
        Sources {
            primary: SOURCE_PRIMARY.to_string(),
            mirrors,
            direct: SOURCE_DIRECT.to_string(),
            backup: SOURCE_BACKUP.to_string(),
        }
    }
}

/// The host part of a URL: the third `/`-separated piece (the whole URL when
/// it has fewer than two slashes).
pub open spec fn host_of(u: Seq<char>) -> Seq<char> {
    match find_from(u, "/"@, 0) {
        Some(a) => match find_from(u, "/"@, a + 1) {
            Some(b) => match find_from(u, "/"@, b + 1) {
                Some(c) => u.subrange(b + 1, c),
                None => u.subrange(b + 1, u.len() as int),
            },
            None => u,
        },
        None => u,
    }
}

/// The host part of a URL (`url.split('/').nth(2)`, or the URL itself).
pub fn host(url: &str) -> (r: &str)
    ensures
        r@ == host_of(url@),
{
    let hv = to_chars(url);
    let slash = to_chars("/");
    proof {
        reveal_strlit("/");
    }
    let n = hv.len();
    match find_from_exec(&hv, &slash, 0) {
        Some(a) => {
            assert(a < n);
            match find_from_exec(&hv, &slash, a + 1) {
                Some(b) => {
                    assert(b < n);
                    match find_from_exec(&hv, &slash, b + 1) {
                        Some(c) => url.substring_char(b + 1, c),
                        None => url.substring_char(b + 1, n),
                    }
                },
                None => url,
            }
        },
        None => url,
    }
}

/// A mirror envelope that can be used at `now`: schema 1, an object
/// upstream, and a `fetched_at` that reads as an instant less than six hours ago.
pub open spec fn envelope_fresh(env: JsonV, now: i64) -> bool {
    &&& get(env, "schema"@) == Some(JsonV::Num(Number::Int(1)))
    &&& get(env, "upstream"@) matches Some(JsonV::Obj(_))
    &&& match oas_str(get(env, "fetched_at"@)) {
        Some(s) => match parse_iso(s) {
            Some(f) => now - f < MIRROR_MAX_AGE_MS,
            None => false,
        },
        None => false,
    }
}

/// Whether a mirror envelope is fresh enough to use.
pub fn mirror_fresh(env: &Json, now: i64) -> (r: bool)
    ensures
        r == envelope_fresh(env@, now),
{
    let schema_ok = match env.get("schema") {
        Some(Json::Num(Number::Int(v))) => *v == 1,
        _ => false,
    };
    let upstream_ok = match env.get("upstream") {
        Some(u) => u.is_object(),
        None => false,
    };
    let fetched = match env.get("fetched_at") {
        Some(f) => match f.as_str() {
            Some(s) => parse_iso_pub(s),
            None => None,
        },
        None => None,
    };
    let fresh = match fetched {
        Some(f) => (now as i128) - (f as i128) < MIRROR_MAX_AGE_MS as i128,
        None => false,
    };
    schema_ok && upstream_ok && fresh
}

/// The mirror envelope `{schema: 1, fetched_at, source_url, upstream}`.
pub open spec fn envelope(upstream: JsonV, source_url: Seq<char>, now: i64) -> JsonV {
    JsonV::Obj(
        seq![
            ("schema"@, JsonV::Num(Number::Int(1))),
            ("fetched_at"@, JsonV::Str(iso_text(now))),
            ("source_url"@, JsonV::Str(source_url)),
            ("upstream"@, upstream),
        ],
    )
}

/// The envelope the mirror job writes; the one schema mirror and client share.
/// An envelope made at an instant of years 0 to 9999 around an object reads
/// as fresh at every later instant less than six hours on.
pub fn mirror_envelope(upstream: &Json, source_url: &str, now: i64) -> (r: Json)
    ensures
        r@ == envelope(upstream@, source_url@, now),
        four_digit_year(now as int) ==> forall|t: i64|
            #![trigger envelope_fresh(r@, t)]
            envelope_fresh(r@, t) <==> (upstream@ is Obj && t - now < MIRROR_MAX_AGE_MS),
{
    let at = iso_pub(now);
    let ghost atv = at@;
    let mut f: Vec<(String, Json)> = Vec::new();
    proof {
        assert(jview_fields(f@) =~= Seq::<(Seq<char>, JsonV)>::empty());
    }
    push_field(&mut f, "schema", Json::Num(Number::Int(1)));
    push_field(&mut f, "fetched_at", Json::Str(at));
    push_field(&mut f, "source_url", Json::text(source_url));
    push_field(&mut f, "upstream", upstream.deep_copy());
    assert(jview_fields(f@) =~= seq![
        ("schema"@, JsonV::Num(Number::Int(1))),
        ("fetched_at"@, JsonV::Str(atv)),
        ("source_url"@, JsonV::Str(source_url@)),
        ("upstream"@, upstream@),
    ]);
    let r = Json::Obj(f);
    assert(r@ == JsonV::Obj(jview_fields(f@)));
    proof {
        reveal_strlit("schema");
        reveal_strlit("fetched_at");
        reveal_strlit("source_url");
        reveal_strlit("upstream");
        let fs = jview_fields(f@);
        assert("schema"@.len() != "fetched_at"@.len());
        assert("schema"@.len() != "upstream"@.len() && "fetched_at"@.len() != "upstream"@.len());
        assert("source_url"@.len() != "upstream"@.len());
        crate::json::lemma_fields_get_found(fs, "schema"@, 0);
        crate::json::lemma_fields_get_found(fs, "fetched_at"@, 1);
        crate::json::lemma_fields_get_found(fs, "upstream"@, 3);
        assert(get(r@, "upstream"@) == Some(upstream@));
    }
    r
}

// ── the chain ──

/// A GET the chain wants made: a page (HTML text) or a JSON document.
pub struct Request {
    pub url: String,
    pub timeout_secs: u64,
    pub page: bool,
}

/// What a GET gave back: a JSON body, a page's text, or why it failed.
pub enum Reply {
    Json(Json),
    Page(String),
    Failed(String),
}

/// Where the chain stands: the index of the next source to ask (0 the
/// primary, 1 to m the m mirrors, m + 1 the direct source, m + 2 the page),
/// and the reasons the sources asked so far failed.
pub struct FetchChain {
    pub next: usize,
    pub errors: Vec<String>,
}

/// Number of sources in the chain.
pub open spec fn stage_count(srcs: Sources) -> int {
    srcs.mirrors@.len() + 3int
}

/// The URL asked at stage `k`.
pub open spec fn stage_url(srcs: Sources, k: int) -> Seq<char> {
    let m = srcs.mirrors@.len() as int;
    if k == 0 {
        srcs.primary@
    } else if k <= m {
        srcs.mirrors@[k - 1]@
    } else if k == m + 1 {
        srcs.direct@
    } else {
        srcs.backup@
    }
}

/// The time allowed for the request at stage `k`, in seconds.
pub open spec fn stage_timeout(srcs: Sources, k: int) -> u64 {
    let m = srcs.mirrors@.len() as int;
    if k == 0 {
        12
    } else if k <= m {
        8
    } else if k == m + 1 {
        15
    } else {
        12
    }
}

/// Only the last stage asks for a page; the others ask for JSON.
pub open spec fn stage_page(srcs: Sources, k: int) -> bool {
    k == srcs.mirrors@.len() + 2
}

/// A reply of the kind the stage asked for (a failure fits any stage).
pub open spec fn fits(srcs: Sources, k: int, reply: Reply) -> bool {
    if stage_page(srcs, k) {
        !(reply is Json)
    } else {
        !(reply is Page)
    }
}

/// What a reply at stage `k` yields: the upstream data and which kind of
/// source gave it, or the reason to go on to the next source.
pub open spec fn verdict(srcs: Sources, k: int, reply: Reply, now: i64) -> Result<(JsonV, Seq<char>), Seq<char>> {
    let m = srcs.mirrors@.len() as int;
    match reply {
        Reply::Failed(e) => Err(e@),
        Reply::Json(j) => if k == 0 {
            Ok((j@, "primary"@))
        } else if k <= m {
            if envelope_fresh(j@, now) {
                Ok((or_null(get(j@, "upstream"@)), "mirror"@))
            } else {
                Err("mirror stale/invalid"@)
            }
        } else {
            Ok((j@, "direct"@))
        },
        Reply::Page(h) => match betteropc(h@) {
            Some(b) => Ok((b, "backup"@)),
            None => Err("betteropc: unrecognized page"@),
        },
    }
}

/// Pieces joined with `sep` between them.
pub open spec fn joined(parts: Seq<Seq<char>>, sep: Seq<char>) -> Seq<char>
    decreases parts.len(),
{
    if parts.len() == 0 {
        Seq::empty()
    } else if parts.len() == 1 {
        parts[0]
    } else {
        joined(parts.drop_last(), sep) + sep + parts.last()
    }
}

pub open spec fn texts(v: Seq<String>) -> Seq<Seq<char>> {
    v.map_values(|s: String| s@)
}

/// The error once every source failed: all reasons, in the order of the sources.
pub open spec fn failure_text(errors: Seq<String>) -> Seq<char> {
    "all sources failed: "@ + joined(texts(errors), "; "@)
}

/// The order of the chain: the primary source, the mirrors in their order,
/// the direct source, and last the page; only the page is asked for as a page.
pub proof fn lemma_chain_order(srcs: Sources)
    ensures
        stage_count(srcs) == srcs.mirrors@.len() + 3,
        forall|k: int|
            0 <= k < stage_count(srcs) ==> #[trigger] stage_url(srcs, k) == (seq![srcs.primary@]
                + srcs.mirrors@.map_values(|m: String| m@) + seq![srcs.direct@, srcs.backup@])[k],
        forall|k: int| 0 <= k < stage_count(srcs) ==> (#[trigger] stage_page(srcs, k) <==> k == stage_count(srcs) - 1),
{
    let m = srcs.mirrors@.len() as int;
    let all = seq![srcs.primary@] + srcs.mirrors@.map_values(|x: String| x@) + seq![srcs.direct@, srcs.backup@];
    assert forall|k: int| 0 <= k < stage_count(srcs) implies #[trigger] stage_url(srcs, k) == all[k] by {
        if k == 0 {
        } else if k <= m {
            assert(all[k] == srcs.mirrors@.map_values(|x: String| x@)[k - 1]);
        } else if k == m + 1 {
        } else {
        }
    }
}

impl FetchChain {
    /// A chain that has asked nothing yet.
    pub fn new() -> (r: FetchChain)
        ensures
            r.next == 0,
            r.errors@.len() == 0,
    {
        FetchChain { next: 0, errors: Vec::new() }
    }

    /// The request to make now; `None` once every source has been asked.
    pub fn request(&self, srcs: &Sources) -> (r: Option<Request>)
        ensures
            match r {
                Some(q) => self.next < stage_count(*srcs) && q.url@ == stage_url(*srcs, self.next as int)
                    && q.timeout_secs == stage_timeout(*srcs, self.next as int) && q.page == stage_page(
                    *srcs,
                    self.next as int,
                ),
                None => self.next >= stage_count(*srcs),
            },
    {
        let m = srcs.mirrors.len();
        let k = self.next;
        if k == 0 {
            Some(Request { url: srcs.primary.clone(), timeout_secs: 12, page: false })
        } else if k <= m {
            Some(Request { url: srcs.mirrors[k - 1].clone(), timeout_secs: 8, page: false })
        } else if k - m == 1 {
            Some(Request { url: srcs.direct.clone(), timeout_secs: 15, page: false })
        } else if k - m == 2 {
            Some(Request { url: srcs.backup.clone(), timeout_secs: 12, page: true })
        } else {
            None
        }
    }

    /// Hands over the reply to the request just made. The data and the kind
    /// of source come back when the reply is usable, and the chain ends;
    /// otherwise its reason is recorded and the chain moves to the next source.
    pub fn feed(&mut self, srcs: &Sources, reply: Reply, now: i64) -> (r: Option<(Json, &'static str)>)
        requires
            old(self).next < stage_count(*srcs),
            old(self).next < usize::MAX,
            fits(*srcs, old(self).next as int, reply),
        ensures
            match verdict(*srcs, old(self).next as int, reply, now) {
                Ok((j, via)) => r matches Some((x, v)) && x@ == j && v@ == via && *final(self)
                    == *old(self),
                Err(e) => r is None && final(self).next == old(self).next + 1 && final(self).errors@
                    == old(self).errors@.push(final(self).errors@.last()) && final(self).errors@.last()@
                    == e,
            },
    {
        let m = srcs.mirrors.len();
        let k = self.next;
        match reply {
            Reply::Failed(e) => {
                self.errors.push(e);
                self.next = k + 1;
                None
            },
            Reply::Json(j) => {
                if k == 0 {
                    Some((j, "primary"))
                } else if k <= m {
                    if mirror_fresh(&j, now) {
                        let up = match j.get("upstream") {
                            Some(u) => u.deep_copy(),
                            None => Json::Null,
                        };
                        Some((up, "mirror"))
                    } else {
                        self.errors.push("mirror stale/invalid".to_string());
                        self.next = k + 1;
                        None
                    }
                } else {
                    Some((j, "direct"))
                }
            },
            Reply::Page(h) => match parse_betteropc(h.as_str()) {
                Some(b) => Some((b, "backup")),
                None => {
                    self.errors.push("betteropc: unrecognized page".to_string());
                    self.next = k + 1;
                    None
                },
            },
        }
    }

    /// The error to report once every source failed.
    pub fn failure(&self) -> (r: String)
        ensures
            r@ == failure_text(self.errors@),
    {
        let mut out = "all sources failed: ".to_string();
        let mut i: usize = 0;
        let ghost ts = texts(self.errors@);
        while i < self.errors.len()
            invariant
                i <= self.errors@.len(),
                ts == texts(self.errors@),
                out@ == "all sources failed: "@ + joined(ts.take(i as int), "; "@),
            decreases self.errors@.len() - i,
        {
            proof {
                assert(ts.take(i + 1).drop_last() =~= ts.take(i as int));
                assert(ts.take(i + 1).last() == self.errors@[i as int]@);
            }
            if i > 0 {
                out.append("; ");
            }
            out.append(self.errors[i].as_str());
            proof {
                if i == 0 {
                    assert(ts.take(1) =~= seq![self.errors@[0]@]);
                    assert(joined(ts.take(0), "; "@) =~= Seq::<char>::empty());
                }
            }
            i = i + 1;
        }
        assert(ts.take(self.errors@.len() as int) =~= ts);
        out
    }
}

// ── the mirror job ──

/// The relay wraps the JSON body in a text header: the body is the text from
/// its first `{` to its last `}`.
pub open spec fn relay_json_text(text: Seq<char>) -> Result<Seq<char>, Seq<char>> {
    match (find_from(text, "{"@, 0), crate::text::rfind_to(text, "}"@, text.len() as int)) {
        (Some(i), Some(j)) => if j <= i {
            Err("relay: no json in body"@)
        } else {
            Ok(text.subrange(i, j + 1))
        },
        _ => Err("relay: no json"@),
    }
}

/// The JSON text inside a relay's reply.
pub fn relay_json(text: &str) -> (r: Result<&str, &'static str>)
    ensures
        match relay_json_text(text@) {
            Ok(s) => r matches Ok(x) && x@ == s,
            Err(e) => r matches Err(x) && x@ == e,
        },
{
    let tv = to_chars(text);
    let open = to_chars("{");
    let close = to_chars("}");
    proof {
        reveal_strlit("{");
        reveal_strlit("}");
    }
    let n = tv.len();
    let i = match find_from_exec(&tv, &open, 0) {
        Some(i) => i,
        None => {
            return Err("relay: no json");
        },
    };
    let j = match crate::text::rfind_to_exec(&tv, &close, n) {
        Some(j) => j,
        None => {
            return Err("relay: no json");
        },
    };
    if j <= i {
        return Err("relay: no json in body");
    }
    assert(j < n);
    Ok(text.substring_char(i, j + 1))
}

} // verus!
