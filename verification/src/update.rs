//! Self-update decisions: whether this copy may update itself, what a GitHub
//! release offers, and whether a downloaded binary matches its published
//! SHA-256. Downloading, the self-test run and the file swap are left to the caller.
use vstd::prelude::*;
use crate::json::{Json, JsonV, get, oas_str};
use crate::text::{contains, find_from_exec, is_ws, is_ws_exec, join2, join3, occurs_at, to_chars};

verus! {

broadcast use vstd::string::group_string_axioms;

pub const LATEST_API: &'static str = "https://api.github.com/repos/elijah7x/is-tibo-happy/releases/latest";

pub const ASSET_BIN: &'static str = "is-tibo-happy";

pub const ASSET_SUMS: &'static str = "SHA256SUMS";

#[verifier::external_type_specification]
#[verifier::external_body]
pub struct ExVersion(semver::Version);

/// The installed copy lives in the application-support directory; builds
/// run from elsewhere never replace themselves.
pub open spec fn install_marker() -> Seq<char> {
    "Library/Application Support/is-tibo-happy"@
}

/// Whether the executable's directory is the installed location.
pub fn installed(exe_dir: &str) -> (r: bool)
    ensures
        r == contains(exe_dir@, install_marker()),
{
    let hv = to_chars(exe_dir);
    let mark = to_chars("Library/Application Support/is-tibo-happy");
    match find_from_exec(&hv, &mark, 0) {
        Some(i) => {
            assert(occurs_at(exe_dir@, install_marker(), i as int));
            true
        },
        None => {
            assert forall|i: int| !occurs_at(exe_dir@, install_marker(), i) by {
                if 0 <= i {
                    assert(!occurs_at(hv@, mark@, i));
                }
            }
            false
        },
    }
}

/// The version `semver::Version::parse` reads from `s` (none when it rejects it).
pub uninterp spec fn semver_parse(s: Seq<char>) -> Option<semver::Version>;

/// The message of the error `semver::Version::parse` gives for `s`.
pub uninterp spec fn semver_error(s: Seq<char>) -> Seq<char>;

/// `a <= b` in `semver::Version`'s order.
pub uninterp spec fn semver_le(a: semver::Version, b: semver::Version) -> bool;

/// `semver::Version::parse(s)`, its error turned into its message.
///
/// The contract names the result and the error's message.
#[verifier::external_body]
fn parse_version(s: &str) -> (r: Result<semver::Version, String>)
    ensures
        match r {
            Ok(v) => semver_parse(s@) == Some(v),
            Err(m) => semver_parse(s@) is None && m@ == semver_error(s@),
        },
{
    semver::Version::parse(s).map_err(|e| e.to_string())
}

/// `a <= b` for two versions (`Version` derives `Ord`: major, minor, patch,
/// pre-release, build metadata, in that order).
///
/// The contract names the result, and states that a version is at most
/// itself (the derived order is reflexive).
#[verifier::external_body]
fn version_le(a: &semver::Version, b: &semver::Version) -> (r: bool)
    ensures
        r == semver_le(*a, *b),
        *a == *b ==> r,
{
    a <= b
}

/// A text with its leading `v`s removed (`trim_start_matches('v')`).
pub open spec fn strip_v(s: Seq<char>) -> Seq<char>
    decreases s.len(),
{
    if s.len() > 0 && s[0] == 'v' {
        strip_v(s.drop_first())
    } else {
        s
    }
}

fn strip_v_exec(s: &str) -> (r: &str)
    ensures
        r@ == strip_v(s@),
{
    let n = s.unicode_len();
    let mut i: usize = 0;
    assert(s@.skip(0) =~= s@);
    while i < n && s.get_char(i) == 'v'
        invariant
            i <= n,
            n == s@.len(),
            strip_v(s@) == strip_v(s@.skip(i as int)),
        decreases n - i,
    {
        assert(s@.skip(i as int).drop_first() =~= s@.skip(i + 1));
        i = i + 1;
    }
    assert(s@.subrange(i as int, n as int) =~= s@.skip(i as int));
    s.substring_char(i, n)
}

/// The first asset named `name` in a list of release assets.
pub open spec fn find_asset(xs: Seq<JsonV>, name: Seq<char>) -> Option<JsonV>
    decreases xs.len(),
{
    if xs.len() == 0 {
        None
    } else if oas_str(get(xs[0], "name"@)) == Some(name) {
        Some(xs[0])
    } else {
        find_asset(xs.drop_first(), name)
    }
}

/// The download URL of asset `name` of a release (of the first asset so named).
pub open spec fn asset_url_of(rel: JsonV, name: Seq<char>) -> Option<Seq<char>> {
    match get(rel, "assets"@) {
        Some(JsonV::Arr(xs)) => match find_asset(xs, name) {
            Some(a) => oas_str(get(a, "browser_download_url"@)),
            None => None,
        },
        _ => None,
    }
}

fn asset_url(rel: &Json, name: &str) -> (r: Result<String, String>)
    ensures
        match asset_url_of(rel@, name@) {
            Some(u) => r matches Ok(x) && x@ == u,
            None => r matches Err(e) && e@ == "asset "@ + name@ + " missing"@,
        },
{
    let xs = match rel.get("assets") {
        Some(Json::Arr(xs)) => xs,
        _ => return Err(join3("asset ", name, " missing")),
    };
    let ghost xv = crate::json::jview_seq(xs@);
    proof {
        crate::json::lemma_jview_seq_len(xs@);
        assert(xv.skip(0) =~= xv);
    }
    let mut i: usize = 0;
    while i < xs.len()
        invariant
            i <= xs.len(),
            xv == crate::json::jview_seq(xs@),
            xv.len() == xs@.len(),
            get(rel@, "assets"@) == Some(JsonV::Arr(xv)),
            find_asset(xv, name@) == find_asset(xv.skip(i as int), name@),
        decreases xs.len() - i,
    {
        proof {
            crate::json::lemma_jview_seq_len(xs@);
            assert(xv[i as int] == xs@[i as int]@);
            assert(xv.skip(i as int).drop_first() =~= xv.skip(i + 1));
        }
        let named = match xs[i].get("name") {
            Some(n) => match n.as_str() {
                Some(t) => crate::text::str_eq(t, name),
                None => false,
            },
            None => false,
        };
        if named {
            proof {
                assert(xv.skip(i as int)[0] == xv[i as int]);
                assert(find_asset(xv, name@) == Some(xv[i as int]));
            }
            return match xs[i].get("browser_download_url") {
                Some(u) => match u.as_str() {
                    Some(t) => Ok(t.to_string()),
                    None => Err(join3("asset ", name, " missing")),
                },
                None => Err(join3("asset ", name, " missing")),
            };
        }
        i = i + 1;
    }
    Err(join3("asset ", name, " missing"))
}

/// What a newer release offers: its tag and the URLs of the binary and of its checksums.
pub struct UpdatePlan {
    pub tag: String,
    pub bin_url: String,
    pub sums_url: String,
}

/// Reads the latest-release JSON against the running version `current`:
/// `Ok(None)` when the release is not newer, the plan when it is, and the
/// error the update stops with otherwise.
pub fn check_release(rel: &Json, current: &str) -> (r: Result<Option<UpdatePlan>, String>)
    ensures
        match oas_str(get(rel@, "tag_name"@)) {
            Some(tag) => (semver_parse(strip_v(tag)) is Some && semver_parse(strip_v(tag)) == semver_parse(
                current@,
            )) ==> r matches Ok(None),
            None => true,
        },
        match oas_str(get(rel@, "tag_name"@)) {
            None => r matches Err(e) && e@ == "release: no tag_name"@,
            Some(tag) => match semver_parse(strip_v(tag)) {
                None => r matches Err(e) && e@ == "bad tag "@ + tag,
                Some(rv) => match semver_parse(current@) {
                    None => r matches Err(e) && e@ == semver_error(current@),
                    Some(cv) => if semver_le(rv, cv) {
                        r matches Ok(None)
                    } else {
                        match (asset_url_of(rel@, ASSET_BIN@), asset_url_of(rel@, ASSET_SUMS@)) {
                            (Some(b), Some(s)) => r matches Ok(Some(p)) && p.tag@ == tag && p.bin_url@ == b
                                && p.sums_url@ == s,
                            (None, _) => r matches Err(e) && e@ == "asset "@ + ASSET_BIN@ + " missing"@,
                            (Some(_), None) => r matches Err(e) && e@ == "asset "@ + ASSET_SUMS@
                                + " missing"@,
                        }
                    },
                },
            },
        },
{
    let tag = match rel.get("tag_name") {
        Some(t) => match t.as_str() {
            Some(s) => s,
            None => return Err("release: no tag_name".to_string()),
        },
        None => return Err("release: no tag_name".to_string()),
    };
    let remote = match parse_version(strip_v_exec(tag)) {
        Ok(v) => v,
        Err(_) => return Err(join2("bad tag ", tag)),
    };
    let cur = match parse_version(current) {
        Ok(v) => v,
        Err(e) => return Err(e),
    };
    if version_le(&remote, &cur) {
        return Ok(None);
    }
    let bin_url = match asset_url(rel, ASSET_BIN) {
        Ok(u) => u,
        Err(e) => return Err(e),
    };
    let sums_url = match asset_url(rel, ASSET_SUMS) {
        Ok(u) => u,
        Err(e) => return Err(e),
    };
    Ok(Some(UpdatePlan { tag: tag.to_string(), bin_url, sums_url }))
}


// ── the checksum file ──

/// The line between `i` and its end `e`, as `str::lines` yields it: without
/// its `\n`, and without a `\r` just before that `\n`.
pub open spec fn line_text(s: Seq<char>, i: int, e: int) -> Seq<char> {
    if e < s.len() && e > i && s[e - 1] == '\r' {
        s.subrange(i, e - 1)
    } else {
        s.subrange(i, e)
    }
}

pub open spec fn ends_with(l: Seq<char>, suffix: Seq<char>) -> bool {
    l.len() >= suffix.len() && l.subrange(l.len() - suffix.len(), l.len() as int) == suffix
}

pub open spec fn skip_ws(l: Seq<char>, i: int) -> int
    decreases l.len() - i,
{
    if 0 <= i < l.len() && is_ws(l[i]) {
        skip_ws(l, i + 1)
    } else {
        i
    }
}

pub open spec fn token_end(l: Seq<char>, i: int) -> int
    decreases l.len() - i,
{
    if 0 <= i < l.len() && !is_ws(l[i]) {
        token_end(l, i + 1)
    } else {
        i
    }
}

/// The first whitespace-separated word of a line (`split_whitespace().next()`).
pub open spec fn first_token(l: Seq<char>) -> Option<Seq<char>> {
    let a = skip_ws(l, 0);
    if a >= l.len() {
        None
    } else {
        Some(l.subrange(a, token_end(l, a)))
    }
}

/// The first word of the line that holds `hit`, when that line ends with `name`.
pub open spec fn line_hit(l: Seq<char>, name: Seq<char>) -> Option<Seq<char>> {
    if ends_with(l, name) {
        first_token(l)
    } else {
        None
    }
}

/// The checksum listed for file `name`, scanning the line that started at
/// `start` from position `i` on: the first word of the first line that ends
/// with the name.
pub open spec fn sums_scan(s: Seq<char>, start: int, i: int, name: Seq<char>) -> Option<Seq<char>>
    decreases s.len() - i,
{
    if i >= s.len() || s[i] == '\n' {
        let hit = line_hit(line_text(s, start, i), name);
        if hit is Some || i >= s.len() {
            hit
        } else {
            sums_scan(s, i + 1, i + 1, name)
        }
    } else {
        sums_scan(s, start, i + 1, name)
    }
}

/// The checksum listed for file `name` in a checksum text.
pub open spec fn entry_from(s: Seq<char>, name: Seq<char>) -> Option<Seq<char>> {
    sums_scan(s, 0, 0, name)
}

fn skip_ws_exec(l: &Vec<char>, i: usize) -> (r: usize)
    requires
        i <= l.len(),
    ensures
        r as int == skip_ws(l@, i as int),
        i <= r <= l.len(),
{
    let mut k = i;
    while k < l.len() && is_ws_exec(l[k])
        invariant
            i <= k <= l.len(),
            skip_ws(l@, i as int) == skip_ws(l@, k as int),
        decreases l.len() - k,
    {
        k = k + 1;
    }
    k
}

fn token_end_exec(l: &Vec<char>, i: usize) -> (r: usize)
    requires
        i <= l.len(),
    ensures
        r as int == token_end(l@, i as int),
        i <= r <= l.len(),
{
    let mut k = i;
    while k < l.len() && !is_ws_exec(l[k])
        invariant
            i <= k <= l.len(),
            token_end(l@, i as int) == token_end(l@, k as int),
        decreases l.len() - k,
    {
        k = k + 1;
    }
    k
}

fn ends_with_exec(l: &Vec<char>, suffix: &Vec<char>) -> (r: bool)
    ensures
        r == ends_with(l@, suffix@),
{
    if l.len() < suffix.len() {
        return false;
    }
    let off = l.len() - suffix.len();
    let mut k: usize = 0;
    while k < suffix.len()
        invariant
            off + suffix.len() == l.len(),
            k <= suffix.len(),
            forall|j: int| 0 <= j < k ==> l@[off + j] == suffix@[j],
        decreases suffix.len() - k,
    {
        if l[off + k] != suffix[k] {
            assert(l@.subrange(off as int, l@.len() as int)[k as int] != suffix@[k as int]);
            return false;
        }
        k = k + 1;
    }
    assert(l@.subrange(off as int, l@.len() as int) =~= suffix@);
    true
}

/// The SHA-256 listed for the binary in a `SHA256SUMS` text.
pub fn sums_entry(sums: &str) -> (r: Option<String>)
    ensures
        match entry_from(sums@, ASSET_BIN@) {
            Some(t) => r matches Some(x) && x@ == t,
            None => r is None,
        },
{
    let sv = to_chars(sums);
    let name = to_chars(ASSET_BIN);
    let n = sv.len();
    let mut start: usize = 0;
    let mut i: usize = 0;
    loop
        invariant
            n == sv@.len(),
            sv@ == sums@,
            name@ == ASSET_BIN@,
            start <= i <= n,
            entry_from(sums@, ASSET_BIN@) == sums_scan(sums@, start as int, i as int, ASSET_BIN@),
        decreases n - i,
    {
        if i == n || sv[i] == '\n' {
            let stop = if i < n && i > start && sv[i - 1] == '\r' {
                i - 1
            } else {
                i
            };
            let line = crate::text::slice(&sv, start, stop);
            assert(line@ == line_text(sv@, start as int, i as int));
            if ends_with_exec(&line, &name) {
                let a = skip_ws_exec(&line, 0);
                if a < line.len() {
                    let b = token_end_exec(&line, a);
                    let t = crate::text::slice(&line, a, b);
                    return Some(crate::text::from_chars(t.as_slice()));
                }
            }
            if i == n {
                return None;
            }
            i = i + 1;
            start = i;
        } else {
            i = i + 1;
        }
    }
}

/// The lowercase hexadecimal SHA-256 of `b`, as `sha2` computes it.
pub uninterp spec fn sha256_hex(b: Seq<u8>) -> Seq<char>;

/// `format!("{:x}", sha2::Sha256::digest(b))`.
///
/// The contract names the result and claims nothing else of it.
#[verifier::external_body]
fn sha256_digest_hex(b: &[u8]) -> (r: String)
    ensures
        r@ == sha256_hex(b@),
{
    format!("{:x}", <sha2::Sha256 as sha2::Digest>::digest(b))
}

/// The check a downloaded binary must pass: its SHA-256 equals the one the
/// checksum file lists for it.
pub open spec fn digest_check(bin: Seq<u8>, sums: Seq<char>) -> Result<(), Seq<char>> {
    match entry_from(sums, ASSET_BIN@) {
        None => Err("SHA256SUMS lacks binary entry"@),
        Some(want) => if sha256_hex(bin) == want {
            Ok(())
        } else {
            Err("sha256 mismatch: "@ + sha256_hex(bin) + " != "@ + want)
        },
    }
}

/// Checks a downloaded binary against the checksum file published with it.
pub fn check_digest(bin: &[u8], sums: &str) -> (r: Result<(), String>)
    ensures
        match digest_check(bin@, sums@) {
            Ok(()) => r is Ok,
            Err(e) => r matches Err(x) && x@ == e,
        },
{
    let want = match sums_entry(sums) {
        Some(w) => w,
        None => return Err("SHA256SUMS lacks binary entry".to_string()),
    };
    let got = sha256_digest_hex(bin);
    if crate::text::str_eq(got.as_str(), want.as_str()) {
        Ok(())
    } else {
        let mut m = join3("sha256 mismatch: ", got.as_str(), " != ");
        m.append(want.as_str());
        Err(m)
    }
}

} // verus!
