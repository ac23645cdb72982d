//! Playlist import: the entries of M3U and PLS files, the paths they name,
//! and the count of entries found in the library. Also the number text of
//! a replay-gain tag.

use vstd::prelude::*;
use vstd::string::*;
use crate::text::{after_first, first_index_of, lemma_first_index_of_bounds, strip_prefix, trim, trimmed};

verus! {

/// The entry of an M3U line: the trimmed line, unless it is empty or a
/// comment (starts with `#`).
pub open spec fn m3u_entry_of(line: Seq<char>) -> Option<Seq<char>> {
    let t = trimmed(line);
    if t.len() == 0 || t[0] == '#' {
        None
    } else {
        Some(t)
    }
}

/// The entry of an M3U playlist line, if the line names a file.
pub fn m3u_entry(line: &str) -> (r: Option<&str>)
    ensures
        r is Some <==> m3u_entry_of(line@) is Some,
        r matches Some(e) ==> m3u_entry_of(line@) == Some(e@),
{
    let t = trim(line);
    if t.unicode_len() == 0 {
        return None;
    }
    if t.get_char(0) == '#' {
        return None;
    }
    Some(t)
}

/// The entry of a PLS line: for a trimmed line `File<n>=<path>`, what
/// follows the first `=` after `File`.
pub open spec fn pls_entry_of(line: Seq<char>) -> Option<Seq<char>> {
    let t = trimmed(line);
    let file = seq!['F', 'i', 'l', 'e'];
    if t.len() >= 4 && t.subrange(0, 4) == file {
        let rest = t.subrange(4, t.len() as int);
        if rest.contains('=') {
            Some(rest.subrange(first_index_of(rest, '=', 0) + 1, rest.len() as int))
        } else {
            None
        }
    } else {
        None
    }
}

/// The path of a PLS playlist line, if the line is a `File<n>=` entry.
pub fn pls_entry(line: &str) -> (r: Option<&str>)
    ensures
        r is Some <==> pls_entry_of(line@) is Some,
        r matches Some(e) ==> pls_entry_of(line@) == Some(e@),
{
    let t = trim(line);
    proof {
        reveal_strlit("File");
        assert("File"@ =~= seq!['F', 'i', 'l', 'e']);
    }
    match strip_prefix(t, "File") {
        Some(rest) => after_first(rest, '='),
        None => None,
    }
}

/// `entry` resolved against the directory `base` (as `Path::join`): an
/// absolute entry stands alone; a relative one follows `base`, with a `/`
/// between them unless `base` is empty or already ends with one.
pub open spec fn joined_path(base: Seq<char>, entry: Seq<char>) -> Seq<char> {
    if entry.len() > 0 && entry[0] == '/' {
        entry
    } else if base.len() == 0 || base.last() == '/' {
        base + entry
    } else {
        base + seq!['/'] + entry
    }
}

/// The path a playlist entry names, relative entries taken from the
/// playlist file's directory `base`.
pub fn resolve_entry(base: &str, entry: &str) -> (r: String)
    ensures
        r@ == joined_path(base@, entry@),
{
    let n = entry.unicode_len();
    if n > 0 && entry.get_char(0) == '/' {
        return String::from_str(entry);
    }
    let mut out = String::from_str(base);
    let m = base.unicode_len();
    if m > 0 && base.get_char(m - 1) != '/' {
        proof {
            reveal_strlit("/");
        }
        out.append("/");
    }
    out.append(entry);
    out
}

/// Counts of a playlist import: entries matched to library tracks, and
/// entries not found.
#[derive(Debug, Clone, Copy, PartialEq, Eq, Structural)]
pub struct ImportResult {
    pub imported: usize,
    pub not_found: usize,
}

/// The counts after one more entry, found in the library or not.
pub open spec fn import_after(r: ImportResult, found: bool) -> ImportResult {
    if found {
        ImportResult { imported: (r.imported + 1) as usize, ..r }
    } else {
        ImportResult { not_found: (r.not_found + 1) as usize, ..r }
    }
}

impl ImportResult {
    /// No entry counted yet.
    pub fn new() -> (r: Self)
        ensures
            r == (ImportResult { imported: 0, not_found: 0 }),
    {
        ImportResult { imported: 0, not_found: 0 }
    }

    /// Count one entry: imported when the library holds its track, not
    /// found otherwise.
    pub fn record(&mut self, found: bool)
        requires
            old(self).imported < usize::MAX,
            old(self).not_found < usize::MAX,
        ensures
            *final(self) == import_after(*old(self), found),
    {
        if found {
            self.imported = self.imported + 1;
        } else {
            self.not_found = self.not_found + 1;
        }
    }
}

/// An M3U line names a file unless, trimmed, it is empty or starts with
/// `#`; the file is the whole trimmed line, inner spaces included.
pub proof fn law_m3u_entry_is_trimmed_line(line: Seq<char>)
    ensures
        m3u_entry_of(line) is None <==> (trimmed(line).len() == 0 || trimmed(line)[0] == '#'),
        m3u_entry_of(line) matches Some(e) ==> e == trimmed(line),
{
}

/// A PLS line names a file when, trimmed, it starts with `File` and holds
/// an `=` after that; the file is everything after the first such `=`.
pub proof fn law_pls_entry_after_equals(line: Seq<char>)
    ensures
        ({
            let t = trimmed(line);
            &&& pls_entry_of(line) is Some <==> (t.len() >= 4 && t.subrange(0, 4) == seq![
                'F',
                'i',
                'l',
                'e',
            ] && t.subrange(4, t.len() as int).contains('='))
            &&& pls_entry_of(line) matches Some(e) ==> {
                let k = t.len() - e.len() - 1;
                &&& 4 <= k < t.len()
                &&& t[k] == '='
                &&& t.subrange(k + 1, t.len() as int) == e
                &&& forall|i: int| 4 <= i < k ==> t[i] != '='
            }
        }),
{
    let t = trimmed(line);
    if t.len() >= 4 && t.subrange(0, 4) == seq!['F', 'i', 'l', 'e'] {
        let rest = t.subrange(4, t.len() as int);
        lemma_first_index_of_bounds(rest, '=', 0);
        if rest.contains('=') {
            let j = choose|j: int| 0 <= j < rest.len() && rest[j] == '=';
            assert(first_index_of(rest, '=', 0) < rest.len()) by {
                if first_index_of(rest, '=', 0) >= rest.len() {
                    assert(rest[j] != '=');
                }
            }
            let f = first_index_of(rest, '=', 0);
            assert forall|i: int| 4 <= i < f + 4 implies t[i] != '=' by {
                assert(t[i] == rest[i - 4]);
            }
            assert(t.subrange(f + 5, t.len() as int) =~= rest.subrange(f + 1, rest.len() as int));
        }
    }
}

/// Every entry is counted exactly once, as imported or as not found.
pub proof fn law_import_counts_every_entry(r: ImportResult, found: bool)
    requires
        r.imported < usize::MAX,
        r.not_found < usize::MAX,
    ensures
        import_after(r, found).imported + import_after(r, found).not_found == r.imported
            + r.not_found + 1,
        import_after(r, found).imported == r.imported + (if found { 1int } else { 0int }),
{
}

} // verus!
