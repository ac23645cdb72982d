//! Small text operations on `&str`, stated over the string's characters.

use vstd::prelude::*;
use vstd::string::*;

verus! {

/// Unicode `White_Space` characters, the ones `char::is_whitespace`
/// accepts.
pub open spec fn is_white_space(c: char) -> bool {
    ||| ('\u{9}' <= c && c <= '\u{d}')
    ||| c == ' '
    ||| c == '\u{85}'
    ||| c == '\u{a0}'
    ||| c == '\u{1680}'
    ||| ('\u{2000}' <= c && c <= '\u{200a}')
    ||| c == '\u{2028}'
    ||| c == '\u{2029}'
    ||| c == '\u{202f}'
    ||| c == '\u{205f}'
    ||| c == '\u{3000}'
}

/// Whether `c` is a white-space character.
pub fn white_space(c: char) -> (r: bool)
    ensures
        r == is_white_space(c),
{
    ('\u{9}' <= c && c <= '\u{d}') || c == ' ' || c == '\u{85}' || c == '\u{a0}' || c
        == '\u{1680}' || ('\u{2000}' <= c && c <= '\u{200a}') || c == '\u{2028}' || c
        == '\u{2029}' || c == '\u{202f}' || c == '\u{205f}' || c == '\u{3000}'
}

/// Index of the first character of `s` at or after `i` that is not white
/// space (`s.len()` when there is none).
pub open spec fn first_non_white(s: Seq<char>, i: int) -> int
    decreases s.len() - i,
{
    if i >= s.len() || !is_white_space(s[i]) {
        i
    } else {
        first_non_white(s, i + 1)
    }
}

/// One past the index of the last character of `s` before `j` that is not
/// white space (`lo` when there is none from `lo` on).
pub open spec fn end_non_white(s: Seq<char>, lo: int, j: int) -> int
    decreases j - lo,
{
    if j <= lo || !is_white_space(s[j - 1]) {
        j
    } else {
        end_non_white(s, lo, j - 1)
    }
}

/// `s` without leading and trailing white space.
pub open spec fn trimmed(s: Seq<char>) -> Seq<char> {
    let lo = first_non_white(s, 0);
    s.subrange(lo, end_non_white(s, lo, s.len() as int))
}

proof fn lemma_first_non_white_bounds(s: Seq<char>, i: int)
    requires
        0 <= i <= s.len(),
    ensures
        i <= first_non_white(s, i) <= s.len(),
        forall|k: int| i <= k < first_non_white(s, i) ==> is_white_space(#[trigger] s[k]),
        first_non_white(s, i) < s.len() ==> !is_white_space(s[first_non_white(s, i)]),
    decreases s.len() - i,
{
    if i < s.len() && is_white_space(s[i]) {
        lemma_first_non_white_bounds(s, i + 1);
    }
}

proof fn lemma_end_non_white_bounds(s: Seq<char>, lo: int, j: int)
    requires
        0 <= lo <= j <= s.len(),
    ensures
        lo <= end_non_white(s, lo, j) <= j,
        forall|k: int| end_non_white(s, lo, j) <= k < j ==> is_white_space(#[trigger] s[k]),
        end_non_white(s, lo, j) > lo ==> !is_white_space(s[end_non_white(s, lo, j) - 1]),
    decreases j - lo,
{
    if j > lo && is_white_space(s[j - 1]) {
        lemma_end_non_white_bounds(s, lo, j - 1);
    }
}

/// What `trimmed` keeps: a run of `s` that neither starts nor ends with
/// white space, with only white space around it.
pub proof fn law_trim_shape(s: Seq<char>)
    ensures
        ({
            let lo = first_non_white(s, 0);
            let hi = end_non_white(s, lo, s.len() as int);
            &&& 0 <= lo <= hi <= s.len()
            &&& trimmed(s) == s.subrange(lo, hi)
            &&& forall|k: int| 0 <= k < lo ==> is_white_space(#[trigger] s[k])
            &&& forall|k: int| hi <= k < s.len() ==> is_white_space(#[trigger] s[k])
            &&& lo < hi ==> !is_white_space(s[lo]) && !is_white_space(s[hi - 1])
        }),
{
    lemma_first_non_white_bounds(s, 0);
    let lo = first_non_white(s, 0);
    lemma_end_non_white_bounds(s, lo, s.len() as int);
}

/// Trimming twice is trimming once: a trimmed text neither starts nor ends
/// with white space.
pub proof fn law_trim_idempotent(s: Seq<char>)
    ensures
        trimmed(trimmed(s)) == trimmed(s),
{
    law_trim_shape(s);
    let t = trimmed(s);
    assert(first_non_white(t, 0) == 0);
    assert(end_non_white(t, 0, t.len() as int) == t.len());
    assert(trimmed(t) =~= t);
}

/// `s` without leading and trailing white space (as `str::trim`).
pub fn trim(s: &str) -> (r: &str)
    ensures
        r@ == trimmed(s@),
{
    let n = s.unicode_len();
    let mut lo: usize = 0;
    while lo < n && white_space(s.get_char(lo))
        invariant
            n == s@.len(),
            lo <= n,
            first_non_white(s@, lo as int) == first_non_white(s@, 0),
        decreases n - lo,
    {
        lo = lo + 1;
    }
    let mut hi: usize = n;
    while hi > lo && white_space(s.get_char(hi - 1))
        invariant
            n == s@.len(),
            lo <= hi <= n,
            lo == first_non_white(s@, 0),
            end_non_white(s@, lo as int, hi as int) == end_non_white(s@, lo as int, n as int),
        decreases hi,
    {
        hi = hi - 1;
    }
    s.substring_char(lo, hi)
}

/// Whether `s` begins with `prefix`.
pub fn starts_with(s: &str, prefix: &str) -> (r: bool)
    ensures
        r == (prefix@.len() <= s@.len() && s@.subrange(0, prefix@.len() as int) == prefix@),
{
    let n = s.unicode_len();
    let m = prefix.unicode_len();
    if m > n {
        return false;
    }
    let mut i: usize = 0;
    while i < m
        invariant
            n == s@.len(),
            m == prefix@.len(),
            m <= n,
            i <= m,
            forall|k: int| 0 <= k < i ==> s@[k] == prefix@[k],
        decreases m - i,
    {
        if s.get_char(i) != prefix.get_char(i) {
            assert(s@.subrange(0, m as int)[i as int] != prefix@[i as int]);
            return false;
        }
        i = i + 1;
    }
    assert(s@.subrange(0, m as int) =~= prefix@);
    true
}

/// `s` without the leading `prefix`, if it begins with it (as
/// `str::strip_prefix`).
pub fn strip_prefix<'a>(s: &'a str, prefix: &str) -> (r: Option<&'a str>)
    ensures
        r is Some <==> (prefix@.len() <= s@.len() && s@.subrange(0, prefix@.len() as int)
            == prefix@),
        r matches Some(rest) ==> rest@ == s@.subrange(prefix@.len() as int, s@.len() as int),
{
    if starts_with(s, prefix) {
        let n = s.unicode_len();
        let m = prefix.unicode_len();
        Some(s.substring_char(m, n))
    } else {
        None
    }
}

/// Whether `s` ends with `suffix`.
pub fn ends_with(s: &str, suffix: &str) -> (r: bool)
    ensures
        r == (suffix@.len() <= s@.len() && s@.subrange(s@.len() - suffix@.len(), s@.len() as int)
            == suffix@),
{
    let n = s.unicode_len();
    let m = suffix.unicode_len();
    if m > n {
        return false;
    }
    let off = n - m;
    let mut i: usize = 0;
    while i < m
        invariant
            n == s@.len(),
            m == suffix@.len(),
            m <= n,
            off == n - m,
            i <= m,
            forall|k: int| 0 <= k < i ==> s@[off + k] == suffix@[k],
        decreases m - i,
    {
        if s.get_char(off + i) != suffix.get_char(i) {
            assert(s@.subrange(off as int, n as int)[i as int] != suffix@[i as int]);
            return false;
        }
        i = i + 1;
    }
    assert(s@.subrange(off as int, n as int) =~= suffix@);
    true
}

/// `s` without the trailing `suffix`, if it ends with it (as
/// `str::strip_suffix`).
pub fn strip_suffix<'a>(s: &'a str, suffix: &str) -> (r: Option<&'a str>)
    ensures
        r is Some <==> (suffix@.len() <= s@.len() && s@.subrange(
            s@.len() - suffix@.len(),
            s@.len() as int,
        ) == suffix@),
        r matches Some(rest) ==> rest@ == s@.subrange(0, s@.len() - suffix@.len()),
{
    if ends_with(s, suffix) {
        let n = s.unicode_len();
        let m = suffix.unicode_len();
        Some(s.substring_char(0, n - m))
    } else {
        None
    }
}

/// Index of the first `c` in `s` at or after `i` (`s.len()` when there is
/// none).
pub open spec fn first_index_of(s: Seq<char>, c: char, i: int) -> int
    decreases s.len() - i,
{
    if i >= s.len() || s[i] == c {
        i
    } else {
        first_index_of(s, c, i + 1)
    }
}

pub(crate) proof fn lemma_first_index_of_bounds(s: Seq<char>, c: char, i: int)
    requires
        0 <= i <= s.len(),
    ensures
        i <= first_index_of(s, c, i) <= s.len(),
        forall|k: int| i <= k < first_index_of(s, c, i) ==> #[trigger] s[k] != c,
        first_index_of(s, c, i) < s.len() ==> s[first_index_of(s, c, i)] == c,
    decreases s.len() - i,
{
    if i < s.len() && s[i] != c {
        lemma_first_index_of_bounds(s, c, i + 1);
    }
}

/// What follows the first `c` in `s`, if `s` holds a `c` (the second part
/// of `str::split_once`).
pub fn after_first(s: &str, c: char) -> (r: Option<&str>)
    ensures
        r is Some <==> s@.contains(c),
        r matches Some(rest) ==> rest@ == s@.subrange(first_index_of(s@, c, 0) + 1, s@.len() as int),
{
    let n = s.unicode_len();
    let mut i: usize = 0;
    while i < n && s.get_char(i) != c
        invariant
            n == s@.len(),
            i <= n,
            first_index_of(s@, c, i as int) == first_index_of(s@, c, 0),
            forall|k: int| 0 <= k < i ==> s@[k] != c,
        decreases n - i,
    {
        i = i + 1;
    }
    proof {
        lemma_first_index_of_bounds(s@, c, 0);
    }
    if i < n {
        assert(s@[i as int] == c);
        Some(s.substring_char(i + 1, n))
    } else {
        assert(!s@.contains(c));
        None
    }
}

} // verus!
