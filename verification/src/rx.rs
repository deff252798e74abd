//! Regular-expression searches (the `regex` crate) and Unicode lower-casing.
//!
//! Each search compiles its pattern and runs it once; the results are named,
//! and positions are counted in characters.
use vstd::prelude::*;

verus! {

/// Whether `regex::Regex::new(pat)` compiles and matches somewhere in `hay`.
pub uninterp spec fn re_is_match(pat: Seq<char>, hay: Seq<char>) -> bool;

/// The text of capture group 1 of the first match of `pat` in `hay`.
pub uninterp spec fn re_group1(pat: Seq<char>, hay: Seq<char>) -> Option<Seq<char>>;

/// Character offsets `(start, end)` of the first match of `pat` in `hay`.
pub uninterp spec fn re_find(pat: Seq<char>, hay: Seq<char>) -> Option<(int, int)>;

/// Character offsets `(start, end)` of the last of the successive matches of `pat` in `hay`.
pub uninterp spec fn re_find_last(pat: Seq<char>, hay: Seq<char>) -> Option<(int, int)>;

/// `str::to_lowercase`.
pub uninterp spec fn lowercase(s: Seq<char>) -> Seq<char>;

/// `Regex::new(pat)` then `is_match(hay)`; a pattern that does not compile matches nothing.
///
/// The contract names the result and claims nothing else of it.
#[verifier::external_body]
pub(crate) fn regex_is_match(pat: &str, hay: &str) -> (r: bool)
    ensures
        r == re_is_match(pat@, hay@),
{
    match regex::Regex::new(pat) {
        Ok(re) => re.is_match(hay),
        Err(_) => false,
    }
}

/// `Regex::new(pat)` then `captures(hay)` and group 1's text.
///
/// The contract names the result and claims nothing else of it.
#[verifier::external_body]
pub(crate) fn regex_group1(pat: &str, hay: &str) -> (r: Option<String>)
    ensures
        match r {
            Some(s) => re_group1(pat@, hay@) == Some(s@),
            None => re_group1(pat@, hay@) is None,
        },
{
    match regex::Regex::new(pat) {
        Ok(re) => re.captures(hay).and_then(|c| c.get(1)).map(|m| m.as_str().to_string()),
        Err(_) => None,
    }
}

/// `Regex::new(pat)` then `find(hay)`, with byte offsets turned into character offsets.
///
/// The contract names the result, and states that a match lies within `hay`
/// with its start at or before its end.
#[verifier::external_body]
pub(crate) fn regex_find(pat: &str, hay: &str) -> (r: Option<(usize, usize)>)
    ensures
        match r {
            Some((a, b)) => re_find(pat@, hay@) == Some((a as int, b as int)) && a <= b <= hay@.len(),
            None => re_find(pat@, hay@) is None,
        },
{
    match regex::Regex::new(pat) {
        Ok(re) => re.find(hay).map(|m| (hay[..m.start()].chars().count(), hay[..m.end()].chars().count())),
        Err(_) => None,
    }
}

/// `Regex::new(pat)` then `find_iter(hay).last()`, in character offsets.
///
/// The contract names the result, and states that a match lies within `hay`
/// with its start at or before its end.
#[verifier::external_body]
pub(crate) fn regex_find_last(pat: &str, hay: &str) -> (r: Option<(usize, usize)>)
    ensures
        match r {
            Some((a, b)) => re_find_last(pat@, hay@) == Some((a as int, b as int)) && a <= b <= hay@.len(),
            None => re_find_last(pat@, hay@) is None,
        },
{
    match regex::Regex::new(pat) {
        Ok(re) => re.find_iter(hay).last().map(|m| (hay[..m.start()].chars().count(), hay[..m.end()].chars().count())),
        Err(_) => None,
    }
}

/// `str::to_lowercase`.
///
/// The contract names the result and claims nothing else of it.
#[verifier::external_body]
pub(crate) fn to_lowercase(s: &str) -> (r: String)
    ensures
        r@ == lowercase(s@),
{
    s.to_lowercase()
}

} // verus!
