//! Character-level text helpers.
use vstd::prelude::*;

verus! {

broadcast use vstd::string::group_string_axioms;

/// String equality: the same characters in the same order.
pub(crate) fn str_eq(a: &str, b: &str) -> (r: bool)
    ensures
        r == (a@ == b@),
{
    let av = to_chars(a);
    let bv = to_chars(b);
    if av.len() != bv.len() {
        return false;
    }
    let mut i: usize = 0;
    while i < av.len()
        invariant
            av@ == a@,
            bv@ == b@,
            av.len() == bv.len(),
            i <= av.len(),
            forall|j: int| 0 <= j < i ==> av@[j] == bv@[j],
        decreases av.len() - i,
    {
        if av[i] != bv[i] {
            return false;
        }
        i = i + 1;
    }
    assert(a@ =~= b@);
    true
}

/// The characters of a string.
pub fn to_chars(s: &str) -> (v: Vec<char>)
    ensures
        v@ == s@,
{
    let mut v: Vec<char> = Vec::new();
    for c in it: s.chars()
        invariant
            v@ == it.seq().take(it.index() as int),
    {
        v.push(c);
    }
    v
}

/// A string made of the given characters (`String::from_iter`).
#[verifier::external_body]
pub(crate) fn from_chars(v: &[char]) -> (s: String)
    ensures
        s@ == v@,
{
    String::from_iter(v.iter())
}

/// `true` when `pat` occurs in `hay` at position `i`.
pub open spec fn occurs_at(hay: Seq<char>, pat: Seq<char>, i: int) -> bool {
    0 <= i && i + pat.len() <= hay.len() && hay.subrange(i, i + pat.len()) == pat
}

/// Position of the first occurrence of `pat` at or after `from` (`str::find` on the tail).
#[verifier::opaque]
pub open spec fn find_from(hay: Seq<char>, pat: Seq<char>, from: int) -> Option<int> {
    if exists|i: int| from <= i && occurs_at(hay, pat, i) {
        Some(choose|i: int| from <= i && occurs_at(hay, pat, i) && forall|j: int| from <= j < i ==> !occurs_at(hay, pat, j))
    } else {
        None
    }
}

/// Position of the last occurrence of `pat` that ends at or before `to` (`str::rfind` on the head).
#[verifier::opaque]
pub open spec fn rfind_to(hay: Seq<char>, pat: Seq<char>, to: int) -> Option<int> {
    if exists|i: int| i + pat.len() <= to && occurs_at(hay, pat, i) {
        Some(choose|i: int| i + pat.len() <= to && occurs_at(hay, pat, i) && forall|j: int| i < j && j + pat.len() <= to ==> !occurs_at(hay, pat, j))
    } else {
        None
    }
}

pub open spec fn contains(hay: Seq<char>, pat: Seq<char>) -> bool {
    exists|i: int| occurs_at(hay, pat, i)
}

/// Whether `pat` occurs in `hay` at position `i`.
pub fn matches_at(hay: &Vec<char>, pat: &Vec<char>, i: usize) -> (r: bool)
    ensures
        r == occurs_at(hay@, pat@, i as int),
{
    if pat.len() > hay.len() || i > hay.len() - pat.len() {
        return false;
    }
    let mut j: usize = 0;
    while j < pat.len()
        invariant
            i + pat.len() <= hay.len(),
            j <= pat.len(),
            forall|m: int| 0 <= m < j ==> hay@[i + m] == pat@[m],
        decreases pat.len() - j,
    {
        if hay[i + j] != pat[j] {
            proof {
                assert(hay@.subrange(i as int, i + pat.len())[j as int] != pat@[j as int]);
            }
            return false;
        }
        j = j + 1;
    }
    assert(hay@.subrange(i as int, i + pat.len()) =~= pat@);
    true
}

/// First occurrence of `pat` at or after `from`.
pub fn find_from_exec(hay: &Vec<char>, pat: &Vec<char>, from: usize) -> (r: Option<usize>)
    ensures
        match r {
            Some(i) => find_from(hay@, pat@, from as int) == Some(i as int) && from <= i && occurs_at(
                hay@,
                pat@,
                i as int,
            ),
            None => find_from(hay@, pat@, from as int) is None && forall|j: int|
                from <= j ==> !occurs_at(hay@, pat@, j),
        },
{
    reveal(find_from);
    if pat.len() > hay.len() || from > hay.len() - pat.len() {
        proof {
            assert forall|j: int| from <= j implies !occurs_at(hay@, pat@, j) by {}
        }
        return None;
    }
    let last = hay.len() - pat.len();
    let mut i = from;
    while i < last
        invariant
            from <= i <= last,
            last == hay.len() - pat.len(),
            forall|j: int| from <= j < i ==> !occurs_at(hay@, pat@, j),
        decreases last - i,
    {
        if matches_at(hay, pat, i) {
            proof {
                reveal(find_from);
                let c = choose|c: int| from <= c && occurs_at(hay@, pat@, c) && forall|j: int| from <= j < c ==> !occurs_at(hay@, pat@, j);
                if c < i {
                } else if c > i {
                    assert(!occurs_at(hay@, pat@, i as int));
                }
            }
            return Some(i);
        }
        i = i + 1;
    }
    if matches_at(hay, pat, last) {
        proof {
            let c = choose|c: int| from <= c && occurs_at(hay@, pat@, c) && forall|j: int| from <= j < c ==> !occurs_at(hay@, pat@, j);
            if c < last {
            } else if c > last {
                assert(!occurs_at(hay@, pat@, last as int));
            }
        }
        return Some(last);
    }
    proof {
        assert forall|j: int| from <= j implies !occurs_at(hay@, pat@, j) by {
            if j > last {
                assert(j + pat@.len() > hay@.len());
            }
        }
    }
    None
}

/// Last occurrence of `pat` ending at or before `to`.
pub fn rfind_to_exec(hay: &Vec<char>, pat: &Vec<char>, to: usize) -> (r: Option<usize>)
    requires
        to <= hay.len(),
    ensures
        match r {
            Some(i) => rfind_to(hay@, pat@, to as int) == Some(i as int) && i + pat@.len() <= to
                && occurs_at(hay@, pat@, i as int),
            None => rfind_to(hay@, pat@, to as int) is None,
        },
{
    reveal(rfind_to);
    if pat.len() > to {
        proof {
            assert forall|j: int| j + pat@.len() <= to implies !occurs_at(hay@, pat@, j) by {}
        }
        return None;
    }
    let mut i: usize = to - pat.len();
    loop
        invariant
            i + pat.len() <= to <= hay.len(),
            forall|j: int| i < j && j + pat.len() <= to ==> !occurs_at(hay@, pat@, j),
        decreases i,
    {
        if matches_at(hay, pat, i) {
            proof {
                reveal(rfind_to);
                let c = choose|c: int| c + pat@.len() <= to && occurs_at(hay@, pat@, c) && forall|j: int| c < j && j + pat@.len() <= to ==> !occurs_at(hay@, pat@, j);
                if c < i {
                    assert(!occurs_at(hay@, pat@, i as int));
                } else if c > i {
                }
            }
            return Some(i);
        }
        if i == 0 {
            proof {
                reveal(rfind_to);
                assert forall|j: int| j + pat@.len() <= to implies !occurs_at(hay@, pat@, j) by {
                    if j < 0 {
                    }
                }
            }
            return None;
        }
        i = i - 1;
    }
}

/// ASCII lower-casing of one character.
pub open spec fn ascii_lower(c: char) -> char {
    if 'A' <= c <= 'Z' {
        ((c as u32) + 32) as char
    } else {
        c
    }
}

/// `str::eq_ignore_ascii_case`.
pub open spec fn eq_ignore_ascii_case(a: Seq<char>, b: Seq<char>) -> bool {
    a.len() == b.len() && forall|i: int| 0 <= i < a.len() ==> ascii_lower(a[i]) == ascii_lower(b[i])
}

pub fn ascii_lower_exec(c: char) -> (r: char)
    ensures
        r == ascii_lower(c),
{
    if 'A' <= c && c <= 'Z' {
        let u = (c as u32) + 32;
        proof {
            assert(u <= 'z' as u32);
        }
        char_from_u32(u)
    } else {
        c
    }
}

/// `char::from_u32` for a value known to be a character.
#[verifier::external_body]
fn char_from_u32(u: u32) -> (c: char)
    requires
        0x61 <= u <= 0x7a,
    ensures
        c == u as char,
{
    char::from_u32(u).unwrap()
}

pub fn eq_ignore_ascii_case_exec(a: &Vec<char>, b: &Vec<char>) -> (r: bool)
    ensures
        r == eq_ignore_ascii_case(a@, b@),
{
    if a.len() != b.len() {
        return false;
    }
    let mut i: usize = 0;
    while i < a.len()
        invariant
            a.len() == b.len(),
            i <= a.len(),
            forall|j: int| 0 <= j < i ==> ascii_lower(a@[j]) == ascii_lower(b@[j]),
        decreases a.len() - i,
    {
        if ascii_lower_exec(a[i]) != ascii_lower_exec(b[i]) {
            return false;
        }
        i = i + 1;
    }
    true
}

/// `s[lo..hi]` by characters.
pub fn slice(s: &Vec<char>, lo: usize, hi: usize) -> (r: Vec<char>)
    requires
        lo <= hi <= s.len(),
    ensures
        r@ == s@.subrange(lo as int, hi as int),
{
    let mut r: Vec<char> = Vec::new();
    let mut i = lo;
    while i < hi
        invariant
            lo <= i <= hi <= s.len(),
            r@ == s@.subrange(lo as int, i as int),
        decreases hi - i,
    {
        r.push(s[i]);
        assert(r@ =~= s@.subrange(lo as int, i + 1));
        i = i + 1;
    }
    r
}

/// Decimal digits of a non-negative integer.
pub open spec fn digits(n: nat) -> Seq<char>
    decreases n,
{
    if n < 10 {
        seq![(('0' as u32) + n) as char]
    } else {
        digits(n / 10).push((('0' as u32) + (n % 10)) as char)
    }
}

/// Decimal text of an integer, with a leading `-` when negative.
pub open spec fn decimal(n: int) -> Seq<char> {
    if n < 0 {
        seq!['-'] + digits((-n) as nat)
    } else {
        digits(n as nat)
    }
}

/// The digit character for `d` below ten.
fn digit_char(d: u64) -> (c: char)
    requires
        d < 10,
    ensures
        c == (('0' as u32) + d) as char,
{
    if d == 0 {
        '0'
    } else if d == 1 {
        '1'
    } else if d == 2 {
        '2'
    } else if d == 3 {
        '3'
    } else if d == 4 {
        '4'
    } else if d == 5 {
        '5'
    } else if d == 6 {
        '6'
    } else if d == 7 {
        '7'
    } else if d == 8 {
        '8'
    } else {
        '9'
    }
}

/// Appends the decimal digits of `m` to `out`.
fn push_digits(m: u64, out: &mut Vec<char>)
    ensures
        final(out)@ == old(out)@ + digits(m as nat),
    decreases m,
{
    if m >= 10 {
        push_digits(m / 10, out);
    }
    out.push(digit_char(m % 10));
    proof {
        if m >= 10 {
            assert(digits(m as nat) == digits((m / 10) as nat).push((('0' as u32) + (m % 10)) as char));
        } else {
            assert(m % 10 == m);
        }
        assert(final(out)@ =~= old(out)@ + digits(m as nat));
    }
}

/// Decimal text of an integer, as `i64::to_string` writes it.
pub(crate) fn decimal_text(n: i64) -> (s: String)
    ensures
        s@ == decimal(n as int),
{
    let mut cs: Vec<char> = Vec::new();
    if n < 0 {
        cs.push('-');
        let m: u64 = ((-(n + 1)) as u64) + 1;
        push_digits(m, &mut cs);
        assert(cs@ =~= seq!['-'] + digits((-n) as nat));
    } else {
        push_digits(n as u64, &mut cs);
        assert(cs@ =~= digits(n as nat));
    }
    from_chars(cs.as_slice())
}

/// Concatenation of string pieces.
pub open spec fn concat(parts: Seq<Seq<char>>) -> Seq<char>
    decreases parts.len(),
{
    if parts.len() == 0 {
        Seq::empty()
    } else {
        concat(parts.drop_last()) + parts.last()
    }
}

/// `a + b` as a new string.
pub fn join2(a: &str, b: &str) -> (r: String)
    ensures
        r@ == a@ + b@,
{
    let mut r = a.to_string();
    r.append(b);
    r
}

/// `a + b + c` as a new string.
pub fn join3(a: &str, b: &str, c: &str) -> (r: String)
    ensures
        r@ == a@ + b@ + c@,
{
    let mut r = a.to_string();
    r.append(b);
    r.append(c);
    r
}


/// `char::is_whitespace`: the characters with Unicode's White_Space property.
pub open spec fn is_ws(c: char) -> bool {
    let u = c as u32;
    (0x09 <= u && u <= 0x0d) || u == 0x20 || u == 0x85 || u == 0xa0 || u == 0x1680 || (0x2000 <= u
        && u <= 0x200a) || u == 0x2028 || u == 0x2029 || u == 0x202f || u == 0x205f || u == 0x3000
}

pub fn is_ws_exec(c: char) -> (r: bool)
    ensures
        r == is_ws(c),
{
    let u = c as u32;
    (0x09 <= u && u <= 0x0d) || u == 0x20 || u == 0x85 || u == 0xa0 || u == 0x1680 || (0x2000 <= u
        && u <= 0x200a) || u == 0x2028 || u == 0x2029 || u == 0x202f || u == 0x205f || u == 0x3000
}

} // verus!
