//! The first source, betteropc.com: its Codex product page (HTML) read into
//! the forecast shape.
//!
//! The page has no JSON API; only its machine-readable attributes are read
//! (DOM `data-*` attributes and the same values repeated in the page's
//! script props). Positions are counted in characters; the window around the
//! last-reset mark spans 300 characters each way, and the scheduled-reset
//! card's window spans the 8000 bytes (UTF-8) after its mark, ending at a
//! character boundary.
use vstd::prelude::*;
use crate::fields::{Fields, opt_field, push_field, push_opt_json, push_opt_text};
use crate::forecast::text_or_null;
use crate::json::{Json, JsonV, fields_get, get, jview_fields, lemma_fields_get_absent, lemma_fields_get_found};
use crate::rx::{
    re_find, re_find_last, re_group1, re_is_match, regex_find, regex_find_last, regex_group1,
    regex_is_match,
};
use crate::text::{
    contains, eq_ignore_ascii_case, eq_ignore_ascii_case_exec, find_from, find_from_exec,
    from_chars, join2, occurs_at, rfind_to, rfind_to_exec, slice, to_chars,
};

verus! {

broadcast use vstd::string::group_string_axioms;

/// What follows an attribute's name up to its value: quotes, `\`, `:`, `=`
/// or spaces, then the value up to the next quote, `\`, `,` or `}`.
pub open spec fn attr_tail() -> Seq<char> {
    "[\"'\\\\:= ]+([^\"'\\\\,}]+)"@
}

/// The pattern that captures the value of attribute `name`.
pub open spec fn attr_pat(name: Seq<char>) -> Seq<char> {
    name + attr_tail()
}

/// The value of the first occurrence of attribute `name` in `seg`.
pub open spec fn attr_value(name: Seq<char>, seg: Seq<char>) -> Option<Seq<char>> {
    re_group1(attr_pat(name), seg)
}

pub open spec fn iso_pat() -> Seq<char> {
    "^\\d{4}-\\d{2}-\\d{2}T\\d{2}:\\d{2}"@
}

pub open spec fn date_pat() -> Seq<char> {
    "^\\d{4}-\\d{2}-\\d{2}"@
}

/// Statuses of a scheduled-reset card that mean it is no longer a live signal.
pub open spec fn bad_status_pat() -> Seq<char> {
    "(?i)cancel|missed|fail|executed|confirmed|done|landed|expired|取消|已执行|已完成|已重置|错过|跳票|失效|过期"@
}

pub open spec fn x_url_pat() -> Seq<char> {
    "x\\.com/[A-Za-z0-9_]+/status/\\d+"@
}

/// A captured value that looks like an ISO instant (`YYYY-MM-DDTHH:MM` first).
pub open spec fn iso_like(v: Option<Seq<char>>) -> Option<Seq<char>> {
    match v {
        Some(s) => if re_is_match(iso_pat(), s) {
            Some(s)
        } else {
            None
        },
        None => None,
    }
}

/// A captured value that starts like a date (`YYYY-MM-DD`).
pub open spec fn date_like(v: Option<Seq<char>>) -> Option<Seq<char>> {
    match v {
        Some(s) => if re_is_match(date_pat(), s) {
            Some(s)
        } else {
            None
        },
        None => None,
    }
}

pub open spec fn mark_last() -> Seq<char> {
    "product-tracking-last-confirmed-reset"@
}

pub open spec fn mark_sched() -> Seq<char> {
    "product-tracking-scheduled-reset"@
}

/// The page is betteropc's Codex product page: it has the structural
/// `product-tracking-` marks and `data-product-id` says `codex` (any case).
pub open spec fn is_codex_page(h: Seq<char>) -> bool {
    contains(h, "product-tracking-"@) && match attr_value("data-product-id"@, h) {
        Some(v) => eq_ignore_ascii_case(v, "codex"@),
        None => false,
    }
}

/// The `<time` tag around position `li`: its start and the position of its `>`.
pub open spec fn time_tag(h: Seq<char>, li: int) -> Option<(int, int)> {
    match rfind_to(h, "<time"@, li) {
        Some(o) => match find_from(h, ">"@, o) {
            Some(e) => if e > li {
                Some((o, e))
            } else {
                None
            },
            None => None,
        },
        None => None,
    }
}

/// Without an enclosing tag: the `dateTime` nearest to position `li`, the first
/// one in the 300 characters after it or the last one in the 300 before it,
/// the nearer winning and the one after winning a tie.
pub open spec fn nearest_datetime(h: Seq<char>, li: int) -> Option<Seq<char>> {
    let fseg = h.subrange(li, if h.len() - li > 300 { li + 300 } else { h.len() as int });
    let bseg = h.subrange(if li > 300 { li - 300 } else { 0 }, li);
    let dt = attr_pat("dateTime"@);
    let m = match (re_find(dt, fseg), re_find_last(dt, bseg)) {
        (Some((fs, fe)), Some((bs, be))) => if fs <= bseg.len() - be {
            Some(fseg.subrange(fs, fe))
        } else {
            Some(bseg.subrange(bs, be))
        },
        (Some((fs, fe)), None) => Some(fseg.subrange(fs, fe)),
        (None, Some((bs, be))) => Some(bseg.subrange(bs, be)),
        (None, None) => None,
    };
    match m {
        Some(t) => iso_like(re_group1(dt, t)),
        None => None,
    }
}

/// The last confirmed reset: the `dateTime` inside the `<time>` tag that holds
/// the mark, else the nearest one around the mark.
pub open spec fn last_reset_at(h: Seq<char>) -> Option<Seq<char>> {
    match find_from(h, mark_last(), 0) {
        Some(li) => match time_tag(h, li) {
            Some((o, e)) => iso_like(attr_value("dateTime"@, h.subrange(o, e + 1))),
            None => nearest_datetime(h, li),
        },
        None => None,
    }
}

/// The number of bytes `c` takes in UTF-8.
pub open spec fn utf8_len(c: char) -> int {
    let u = c as u32;
    if u < 0x80 {
        1
    } else if u < 0x800 {
        2
    } else if u < 0x10000 {
        3
    } else {
        4
    }
}

/// Where a window of at most `budget` bytes of UTF-8 that starts at character
/// `i` of `h` ends: characters are taken while their bytes still fit.
pub open spec fn byte_window_end(h: Seq<char>, i: int, budget: int) -> int
    decreases h.len() - i,
{
    if 0 <= i < h.len() && utf8_len(h[i]) <= budget {
        byte_window_end(h, i + 1, budget - utf8_len(h[i]))
    } else {
        i
    }
}

/// The scheduled-reset card as a commitment, read after the card's mark: its
/// target and publication instants, and the status and tweet link in the
/// 8000 bytes after the mark; none without either instant or with a terminal status.
pub open spec fn commitment(h: Seq<char>) -> Option<JsonV> {
    match find_from(h, mark_sched(), 0) {
        Some(si) => {
            let after = h.subrange(si, h.len() as int);
            let sf = iso_like(attr_value("targetIso"@, after));
            let pa = iso_like(attr_value("publishedAtIso"@, after));
            let seg = h.subrange(si, byte_window_end(h, si, 8000));
            let bad = match attr_value("data-signal-reset-status"@, seg) {
                Some(st) => re_is_match(bad_status_pat(), st),
                None => false,
            };
            if (sf is None && pa is None) || bad {
                None
            } else {
                let url = match re_find(x_url_pat(), seg) {
                    Some((a, b)) => JsonV::Str("https://"@ + seg.subrange(a, b)),
                    None => JsonV::Null,
                };
                Some(
                    JsonV::Obj(
                        seq![
                            ("scheduled_for"@, text_or_null(sf)),
                            ("posted_at"@, text_or_null(pa)),
                            ("url"@, url),
                            ("text"@, JsonV::Str("scheduled reset"@)),
                        ],
                    ),
                )
            }
        },
        None => None,
    }
}

/// `today`: the day's status as the page states it, with its date.
pub open spec fn today_field(h: Seq<char>) -> Fields {
    match attr_value("data-reset-today-status"@, h) {
        Some(ts) => seq![
            (
                "today"@,
                JsonV::Obj(
                    seq![
                        ("status"@, JsonV::Str(ts)),
                        ("date"@, text_or_null(date_like(attr_value("data-reset-today-date"@, h)))),
                    ],
                ),
            ),
        ],
        None => Seq::empty(),
    }
}

/// The page read into the forecast shape; none when it is not the Codex
/// product page or when neither a last reset nor a commitment could be read.
pub open spec fn betteropc(h: Seq<char>) -> Option<JsonV> {
    if !is_codex_page(h) {
        None
    } else {
        let lr = last_reset_at(h);
        let cm = commitment(h);
        if lr is None && cm is None {
            None
        } else {
            Some(
                JsonV::Obj(
                    seq![
                        ("source"@, JsonV::Str("betteropc"@)),
                        ("updated_at"@, text_or_null(iso_like(attr_value("data-product-updated-at"@, h)))),
                    ] + today_field(h) + seq![("last_reset_at"@, text_or_null(lr))] + opt_field(
                        "commitment"@,
                        cm,
                    ),
                ),
            )
        }
    }
}

/// A scheduled-reset card whose status, in the window after its mark, is
/// terminal (cancelled, missed, failed, executed, confirmed, done, landed,
/// expired, or their Chinese forms, in any case) is no live signal: the page
/// then yields no commitment.
pub proof fn lemma_terminal_card_no_commitment(h: Seq<char>, si: int, st: Seq<char>)
    requires
        find_from(h, mark_sched(), 0) == Some(si),
        attr_value("data-signal-reset-status"@, h.subrange(si, byte_window_end(h, si, 8000))) == Some(st),
        re_is_match(
            "(?i)cancel|missed|fail|executed|confirmed|done|landed|expired|取消|已执行|已完成|已重置|错过|跳票|失效|过期"@,
            st,
        ),
    ensures
        commitment(h) is None,
        betteropc(h) matches Some(v) ==> get(v, "commitment"@) is None,
{
    reveal_strlit("source");
    reveal_strlit("updated_at");
    reveal_strlit("today");
    reveal_strlit("last_reset_at");
    reveal_strlit("commitment");
    assert("commitment"@[0] != "updated_at"@[0]);
    if betteropc(h) is Some {
        let lr = last_reset_at(h);
        let head = seq![
            ("source"@, JsonV::Str("betteropc"@)),
            ("updated_at"@, text_or_null(iso_like(attr_value("data-product-updated-at"@, h)))),
        ];
        let tf = today_field(h);
        let fs = head + tf + seq![("last_reset_at"@, text_or_null(lr))] + opt_field("commitment"@, commitment(h));
        assert(betteropc(h)->0 == JsonV::Obj(fs));
        let n = tf.len() as int;
        assert(n == 0 || (n == 1 && tf[0].0 == "today"@));
        assert forall|j: int| 0 <= j < fs.len() implies fs[j].0 != "commitment"@ by {
            if j == 2 && n == 1 {
                assert(fs[j] == tf[0]);
            }
        }
        lemma_fields_get_absent(fs, "commitment"@);
    }
}

/// `null`, or a string shaped like an ISO instant.
pub open spec fn iso_or_null(v: Option<JsonV>) -> bool {
    v == Some(JsonV::Null) || (v matches Some(JsonV::Str(s)) && re_is_match(iso_pat(), s))
}

/// What a successful read yields: the page is the Codex product page; the
/// source is `betteropc`; the update time and the last reset are `null` or
/// ISO-shaped; a last reset or a commitment is there; and a commitment reads
/// "scheduled reset", with ISO-shaped or `null` times, not both `null`.
pub proof fn lemma_betteropc_shape(h: Seq<char>)
    requires
        betteropc(h) is Some,
    ensures
        is_codex_page(h),
        get(betteropc(h)->0, "source"@) == Some(JsonV::Str("betteropc"@)),
        iso_or_null(get(betteropc(h)->0, "updated_at"@)),
        iso_or_null(get(betteropc(h)->0, "last_reset_at"@)),
        get(betteropc(h)->0, "last_reset_at"@) != Some(JsonV::Null) || get(betteropc(h)->0, "commitment"@) is Some,
        get(betteropc(h)->0, "commitment"@) matches Some(c) ==> {
            &&& iso_or_null(get(c, "scheduled_for"@))
            &&& iso_or_null(get(c, "posted_at"@))
            &&& (get(c, "scheduled_for"@) != Some(JsonV::Null) || get(c, "posted_at"@) != Some(JsonV::Null))
            &&& get(c, "text"@) == Some(JsonV::Str("scheduled reset"@))
        },
{
    reveal_strlit("source");
    reveal_strlit("updated_at");
    reveal_strlit("today");
    reveal_strlit("last_reset_at");
    reveal_strlit("commitment");
    reveal_strlit("scheduled_for");
    reveal_strlit("posted_at");
    reveal_strlit("url");
    reveal_strlit("text");
    assert("commitment"@[0] != "updated_at"@[0]);
    let lr = last_reset_at(h);
    let cm = commitment(h);
    let head = seq![
        ("source"@, JsonV::Str("betteropc"@)),
        ("updated_at"@, text_or_null(iso_like(attr_value("data-product-updated-at"@, h)))),
    ];
    let tf = today_field(h);
    let fs = head + tf + seq![("last_reset_at"@, text_or_null(lr))] + opt_field("commitment"@, cm);
    assert(betteropc(h)->0 == JsonV::Obj(fs));
    let n = tf.len() as int;
    assert(n == 0 || (n == 1 && tf[0].0 == "today"@));
    assert(fs[0] == head[0]);
    assert(fs[1] == head[1]);
    assert(n == 1 ==> fs[2] == tf[0]);
    assert(fs[2 + n].0 == "last_reset_at"@);
    lemma_fields_get_found(fs, "source"@, 0);
    lemma_fields_get_found(fs, "updated_at"@, 1);
    lemma_fields_get_found(fs, "last_reset_at"@, 2 + n);
    match cm {
        Some(c) => {
            assert(fs.len() == 4 + n);
            assert(fs[3 + n] == ("commitment"@, c));
            lemma_fields_get_found(fs, "commitment"@, 3 + n);
            let si = find_from(h, mark_sched(), 0)->0;
            let after = h.subrange(si, h.len() as int);
            let sf = iso_like(attr_value("targetIso"@, after));
            let pa = iso_like(attr_value("publishedAtIso"@, after));
            let seg = h.subrange(si, byte_window_end(h, si, 8000));
            let url = match re_find(x_url_pat(), seg) {
                Some((a, b)) => JsonV::Str("https://"@ + seg.subrange(a, b)),
                None => JsonV::Null,
            };
            let cf = seq![
                ("scheduled_for"@, text_or_null(sf)),
                ("posted_at"@, text_or_null(pa)),
                ("url"@, url),
                ("text"@, JsonV::Str("scheduled reset"@)),
            ];
            assert(c == JsonV::Obj(cf));
            assert(cf[0].0.len() != "posted_at"@.len() && cf[0].0.len() != "text"@.len());
            assert(cf[1].0.len() != "text"@.len() && cf[2].0.len() != "text"@.len());
            lemma_fields_get_found(cf, "scheduled_for"@, 0);
            lemma_fields_get_found(cf, "posted_at"@, 1);
            lemma_fields_get_found(cf, "text"@, 3);
        },
        None => {
            assert forall|j: int| 0 <= j < fs.len() implies fs[j].0 != "commitment"@ by {
                if j == 2 && n == 1 {
                    assert(fs[j] == tf[0]);
                }
            }
            lemma_fields_get_absent(fs, "commitment"@);
        },
    }
}

// ── executable ──

pub open spec fn sview(o: Option<String>) -> Option<Seq<char>> {
    match o {
        Some(s) => Some(s@),
        None => None,
    }
}

pub open spec fn jopt(o: Option<Json>) -> Option<JsonV> {
    match o {
        Some(j) => Some(j@),
        None => None,
    }
}

fn attr_pat_exec(name: &str) -> (r: String)
    ensures
        r@ == attr_pat(name@),
{
    join2(name, "[\"'\\\\:= ]+([^\"'\\\\,}]+)")
}

/// The value of the first occurrence of attribute `name` in `seg`.
pub fn bp_attr_get(name: &str, seg: &str) -> (r: Option<String>)
    ensures
        match r {
            Some(v) => attr_value(name@, seg@) == Some(v@),
            None => attr_value(name@, seg@) is None,
        },
{
    let pat = attr_pat_exec(name);
    regex_group1(pat.as_str(), seg)
}

/// A captured value kept only when it looks like an ISO instant.
pub fn bp_iso(v: Option<String>) -> (r: Option<String>)
    ensures
        sview(r) == iso_like(sview(v)),
{
    match v {
        Some(s) => if regex_is_match("^\\d{4}-\\d{2}-\\d{2}T\\d{2}:\\d{2}", s.as_str()) {
            Some(s)
        } else {
            None
        },
        None => None,
    }
}

/// A captured value kept only when it starts like a date.
pub fn bp_date(v: Option<String>) -> (r: Option<String>)
    ensures
        sview(r) == date_like(sview(v)),
{
    match v {
        Some(s) => if regex_is_match("^\\d{4}-\\d{2}-\\d{2}", s.as_str()) {
            Some(s)
        } else {
            None
        },
        None => None,
    }
}

fn opt_text_json(v: Option<String>) -> (r: Json)
    ensures
        r@ == text_or_null(sview(v)),
{
    match v {
        Some(s) => Json::Str(s),
        None => Json::Null,
    }
}

fn is_codex_page_exec(html: &str, hv: &Vec<char>) -> (r: bool)
    requires
        hv@ == html@,
    ensures
        r == is_codex_page(html@),
{
    let mark = to_chars("product-tracking-");
    let found = find_from_exec(hv, &mark, 0);
    let has_mark = found.is_some();
    assert(has_mark == contains(html@, "product-tracking-"@)) by {
        if has_mark {
            assert(occurs_at(html@, "product-tracking-"@, found.unwrap() as int));
        } else {
            assert forall|i: int| !occurs_at(html@, "product-tracking-"@, i) by {
                if 0 <= i {
                    assert(!occurs_at(hv@, mark@, i));
                }
            }
        }
    }
    if !has_mark {
        return false;
    }
    match bp_attr_get("data-product-id", html) {
        Some(v) => {
            let vc = to_chars(v.as_str());
            let codex = to_chars("codex");
            eq_ignore_ascii_case_exec(&vc, &codex)
        },
        None => false,
    }
}

fn nearest_datetime_exec(hv: &Vec<char>, li: usize) -> (r: Option<String>)
    requires
        li <= hv.len(),
    ensures
        sview(r) == nearest_datetime(hv@, li as int),
{
    let fend = if hv.len() - li > 300 {
        li + 300
    } else {
        hv.len()
    };
    let bstart = if li > 300 {
        li - 300
    } else {
        0
    };
    let fseg = slice(hv, li, fend);
    let bseg = slice(hv, bstart, li);
    let fs_text = from_chars(fseg.as_slice());
    let bs_text = from_chars(bseg.as_slice());
    let dt = attr_pat_exec("dateTime");
    let fwd = regex_find(dt.as_str(), fs_text.as_str());
    let bwd = regex_find_last(dt.as_str(), bs_text.as_str());
    let m: Option<Vec<char>> = match (fwd, bwd) {
        (Some((fs, fe)), Some((bs, be))) => if fs <= bseg.len() - be {
            Some(slice(&fseg, fs, fe))
        } else {
            Some(slice(&bseg, bs, be))
        },
        (Some((fs, fe)), None) => Some(slice(&fseg, fs, fe)),
        (None, Some((bs, be))) => Some(slice(&bseg, bs, be)),
        (None, None) => None,
    };
    match m {
        Some(t) => {
            let ts = from_chars(t.as_slice());
            bp_iso(regex_group1(dt.as_str(), ts.as_str()))
        },
        None => None,
    }
}

fn last_reset_at_exec(hv: &Vec<char>) -> (r: Option<String>)
    ensures
        sview(r) == last_reset_at(hv@),
{
    let mark = to_chars("product-tracking-last-confirmed-reset");
    let li = match find_from_exec(hv, &mark, 0) {
        Some(i) => i,
        None => return None,
    };
    let lt = to_chars("<time");
    let gt = to_chars(">");
    proof {
        reveal_strlit(">");
    }
    match rfind_to_exec(hv, &lt, li) {
        Some(o) => match find_from_exec(hv, &gt, o) {
            Some(e) => if e > li {
                let n = hv.len();
                assert(e < n);
                let t = slice(hv, o, e + 1);
                let ts = from_chars(t.as_slice());
                return bp_iso(bp_attr_get("dateTime", ts.as_str()));
            },
            None => {},
        },
        None => {},
    }
    nearest_datetime_exec(hv, li)
}

fn utf8_len_exec(c: char) -> (r: usize)
    ensures
        r == utf8_len(c),
{
    let u = c as u32;
    if u < 0x80 {
        1
    } else if u < 0x800 {
        2
    } else if u < 0x10000 {
        3
    } else {
        4
    }
}

fn byte_window_end_exec(hv: &Vec<char>, start: usize, budget: usize) -> (r: usize)
    requires
        start <= hv.len(),
    ensures
        r == byte_window_end(hv@, start as int, budget as int),
        start <= r <= hv.len(),
{
    let mut i = start;
    let mut left = budget;
    while i < hv.len() && utf8_len_exec(hv[i]) <= left
        invariant
            start <= i <= hv.len(),
            byte_window_end(hv@, i as int, left as int) == byte_window_end(hv@, start as int, budget as int),
        decreases hv.len() - i,
    {
        let n = utf8_len_exec(hv[i]);
        left = left - n;
        i = i + 1;
    }
    i
}

fn commitment_exec(hv: &Vec<char>) -> (r: Option<Json>)
    ensures
        jopt(r) == commitment(hv@),
{
    let mark = to_chars("product-tracking-scheduled-reset");
    let si = match find_from_exec(hv, &mark, 0) {
        Some(i) => i,
        None => return None,
    };
    let after = slice(hv, si, hv.len());
    let after_s = from_chars(after.as_slice());
    let sf = bp_iso(bp_attr_get("targetIso", after_s.as_str()));
    let pa = bp_iso(bp_attr_get("publishedAtIso", after_s.as_str()));
    let send = byte_window_end_exec(hv, si, 8000);
    let seg = slice(hv, si, send);
    let seg_s = from_chars(seg.as_slice());
    let bad = match bp_attr_get("data-signal-reset-status", seg_s.as_str()) {
        Some(st) => regex_is_match(
            "(?i)cancel|missed|fail|executed|confirmed|done|landed|expired|取消|已执行|已完成|已重置|错过|跳票|失效|过期",
            st.as_str(),
        ),
        None => false,
    };
    if (sf.is_none() && pa.is_none()) || bad {
        return None;
    }
    let url = match regex_find("x\\.com/[A-Za-z0-9_]+/status/\\d+", seg_s.as_str()) {
        Some((a, b)) => {
            let m = slice(&seg, a, b);
            let ms = from_chars(m.as_slice());
            Json::Str(join2("https://", ms.as_str()))
        },
        None => Json::Null,
    };
    let ghost uv = url@;
    let ghost sfv = text_or_null(sview(sf));
    let ghost pav = text_or_null(sview(pa));
    let mut c: Vec<(String, Json)> = Vec::new();
    proof {
        assert(jview_fields(c@) =~= Seq::<(Seq<char>, JsonV)>::empty());
    }
    push_field(&mut c, "scheduled_for", opt_text_json(sf));
    push_field(&mut c, "posted_at", opt_text_json(pa));
    push_field(&mut c, "url", url);
    push_field(&mut c, "text", Json::text("scheduled reset"));
    assert(jview_fields(c@) =~= seq![
        ("scheduled_for"@, sfv),
        ("posted_at"@, pav),
        ("url"@, uv),
        ("text"@, JsonV::Str("scheduled reset"@)),
    ]);
    let r = Json::Obj(c);
    assert(r@ == JsonV::Obj(jview_fields(c@)));
    Some(r)
}

/// Reads betteropc's Codex product page into the forecast shape:
/// `{source, updated_at, today?, last_reset_at, commitment?}`. `None` when
/// the page is not that page, or when it yields neither a last reset nor a
/// scheduled reset (so a changed page falls through to the other sources).
pub fn parse_betteropc(html: &str) -> (r: Option<Json>)
    ensures
        jopt(r) == betteropc(html@),
{
    let hv = to_chars(html);
    if !is_codex_page_exec(html, &hv) {
        return None;
    }
    let lr = last_reset_at_exec(&hv);
    let cm = commitment_exec(&hv);
    if lr.is_none() && cm.is_none() {
        return None;
    }
    let ghost lrv = sview(lr);
    let ghost cmv = jopt(cm);
    let mut out: Vec<(String, Json)> = Vec::new();
    proof {
        assert(jview_fields(out@) =~= Seq::<(Seq<char>, JsonV)>::empty());
    }
    push_field(&mut out, "source", Json::text("betteropc"));
    push_field(&mut out, "updated_at", opt_text_json(bp_iso(bp_attr_get("data-product-updated-at", html))));
    let ghost head = jview_fields(out@);
    assert(head =~= seq![
        ("source"@, JsonV::Str("betteropc"@)),
        ("updated_at"@, text_or_null(iso_like(attr_value("data-product-updated-at"@, html@)))),
    ]);
    match bp_attr_get("data-reset-today-status", html) {
        Some(ts) => {
            let mut t: Vec<(String, Json)> = Vec::new();
            proof {
                assert(jview_fields(t@) =~= Seq::<(Seq<char>, JsonV)>::empty());
            }
            let ghost tsv = ts@;
            push_field(&mut t, "status", Json::Str(ts));
            push_field(&mut t, "date", opt_text_json(bp_date(bp_attr_get("data-reset-today-date", html))));
            assert(jview_fields(t@) =~= seq![
                ("status"@, JsonV::Str(tsv)),
                ("date"@, text_or_null(date_like(attr_value("data-reset-today-date"@, html@)))),
            ]);
            let tj = Json::Obj(t);
            assert(tj@ == JsonV::Obj(jview_fields(t@)));
            push_field(&mut out, "today", tj);
            assert(jview_fields(out@) =~= head + today_field(html@));
        },
        None => {
            assert(head + Seq::<(Seq<char>, JsonV)>::empty() =~= head);
        },
    }
    assert(jview_fields(out@) == head + today_field(html@));
    push_field(&mut out, "last_reset_at", opt_text_json(lr));
    push_opt_json(&mut out, "commitment", cm);
    assert(jview_fields(out@) =~= head + today_field(html@) + seq![("last_reset_at"@, text_or_null(lrv))]
        + opt_field("commitment"@, cmv));
    let r = Json::Obj(out);
    assert(r@ == JsonV::Obj(jview_fields(out@)));
    assert(lrv == last_reset_at(html@));
    assert(cmv == commitment(html@));
    assert(is_codex_page(html@));
    Some(r)
}

} // verus!
