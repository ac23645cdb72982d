//! Decisions of the library scanner: which files are audio files, what to
//! do with each file found on disk, and the tally of a scan.

use vstd::prelude::*;
use vstd::string::*;

verus! {

// ---------------------------------------------------------------------------
// Path names (Unix rules, as `std::path::Path`)
// ---------------------------------------------------------------------------

/// Start of the `/`-separated segment of `p` that ends at `end`: one past
/// the nearest `/` before `end`, or 0.
pub open spec fn segment_start(p: Seq<char>, end: int) -> int
    decreases end,
{
    if end <= 0 {
        0
    } else if p[end - 1] == '/' {
        end
    } else {
        segment_start(p, end - 1)
    }
}

proof fn lemma_segment_start(p: Seq<char>, end: int)
    requires
        0 <= end <= p.len(),
    ensures
        0 <= segment_start(p, end) <= end,
        segment_start(p, end) > 0 ==> p[segment_start(p, end) - 1] == '/',
        forall|k: int| segment_start(p, end) <= k < end ==> #[trigger] p[k] != '/',
    decreases end,
{
    if end > 0 && p[end - 1] != '/' {
        lemma_segment_start(p, end - 1);
    }
}

/// Bounds of the file name of `p[0..end]`: its last component that is
/// neither empty nor `.`; `None` when there is none (as for `/`, `.` or
/// the empty path).
pub open spec fn last_component(p: Seq<char>, end: int) -> Option<(int, int)>
    decreases end,
{
    if end <= 0 {
        None
    } else {
        let s = segment_start(p, end);
        if s < end && !(end - s == 1 && p[s] == '.') {
            Some((s, end))
        } else if s <= 0 {
            None
        } else {
            proof {
                lemma_segment_start_le(p, end);
            }
            last_component(p, s - 1)
        }
    }
}

/// A segment starts no later than it ends.
pub proof fn lemma_segment_start_le(p: Seq<char>, end: int)
    ensures
        segment_start(p, end) <= if end <= 0 { 0 } else { end },
    decreases end,
{
    if end > 0 && p[end - 1] != '/' {
        lemma_segment_start_le(p, end - 1);
    }
}

/// The file name of path `p` (as `Path::file_name`): its last component
/// that is neither empty nor `.`, unless that component is `..`.
pub open spec fn file_name(p: Seq<char>) -> Option<Seq<char>> {
    match last_component(p, p.len() as int) {
        Some((s, e)) => {
            let name = p.subrange(s, e);
            if name == seq!['.', '.'] {
                None
            } else {
                Some(name)
            }
        },
        None => None,
    }
}

/// Index of the last `.` in `name`, or -1.
pub open spec fn last_dot(name: Seq<char>) -> int
    decreases name.len(),
{
    if name.len() == 0 {
        -1
    } else if name.last() == '.' {
        name.len() - 1
    } else {
        last_dot(name.drop_last())
    }
}

/// The extension of a file name (as `Path::extension`): what follows its
/// last `.`, unless that `.` is the first character or there is none.
pub open spec fn name_extension(name: Seq<char>) -> Option<Seq<char>> {
    let d = last_dot(name);
    if d > 0 {
        Some(name.subrange(d + 1, name.len() as int))
    } else {
        None
    }
}

/// The extension of path `p`.
pub open spec fn path_extension(p: Seq<char>) -> Option<Seq<char>> {
    match file_name(p) {
        Some(name) => name_extension(name),
        None => None,
    }
}

/// ASCII lower case of `c`.
pub open spec fn ascii_lower(c: char) -> char {
    if 'A' <= c && c <= 'Z' {
        ((c as u32) + 32) as char
    } else {
        c
    }
}

/// ASCII lower case of every character of `s`.
pub open spec fn ascii_lowered(s: Seq<char>) -> Seq<char> {
    s.map_values(|c: char| ascii_lower(c))
}

/// The extensions the scanner takes for audio files.
pub open spec fn audio_extensions() -> Seq<Seq<char>> {
    seq![
        seq!['m', 'p', '3'],
        seq!['f', 'l', 'a', 'c'],
        seq!['o', 'g', 'g'],
        seq!['o', 'p', 'u', 's'],
        seq!['m', '4', 'a'],
        seq!['a', 'a', 'c'],
        seq!['w', 'a', 'v'],
        seq!['a', 'i', 'f', 'f'],
        seq!['w', 'v'],
    ]
}

/// Whether path `p` names an audio file: its extension, in lower case, is
/// one of `audio_extensions()`.
pub open spec fn is_audio_path(p: Seq<char>) -> bool {
    match path_extension(p) {
        Some(ext) => audio_extensions().contains(ascii_lowered(ext)),
        None => false,
    }
}

fn lower_char(c: char) -> (r: char)
    ensures
        r == ascii_lower(c),
{
    if 'A' <= c && c <= 'Z' {
        let b: u8 = (c as u8) + 32;
        b as char
    } else {
        c
    }
}

/// Whether `path[from..to]`, in ASCII lower case, equals `ext`.
fn lowered_equals(path: &str, from: usize, to: usize, ext: &str) -> (r: bool)
    requires
        from <= to <= path@.len(),
    ensures
        r == (ascii_lowered(path@.subrange(from as int, to as int)) == ext@),
{
    let ghost seg = path@.subrange(from as int, to as int);
    let m = ext.unicode_len();
    if to - from != m {
        assert(ascii_lowered(seg).len() != ext@.len());
        return false;
    }
    let mut i: usize = 0;
    while i < m
        invariant
            from <= to <= path@.len(),
            to - from == m,
            m == ext@.len(),
            seg == path@.subrange(from as int, to as int),
            i <= m,
            forall|k: int| 0 <= k < i ==> ascii_lowered(seg)[k] == ext@[k],
        decreases m - i,
    {
        let c = lower_char(path.get_char(from + i));
        if c != ext.get_char(i) {
            assert(ascii_lowered(seg)[i as int] != ext@[i as int]);
            return false;
        }
        i = i + 1;
    }
    assert(ascii_lowered(seg) =~= ext@);
    true
}

/// Bounds of the file name of `path`, as `last_component`.
fn last_component_of(path: &str) -> (r: Option<(usize, usize)>)
    ensures
        r is Some <==> last_component(path@, path@.len() as int) is Some,
        r matches Some((s, e)) ==> last_component(path@, path@.len() as int) == Some((s as int, e as int))
            && s < e <= path@.len(),
{
    let n = path.unicode_len();
    let mut end: usize = n;
    loop
        invariant
            n == path@.len(),
            end <= n,
            last_component(path@, end as int) == last_component(path@, n as int),
        decreases end,
    {
        if end == 0 {
            return None;
        }
        let mut s: usize = end;
        while s > 0 && path.get_char(s - 1) != '/'
            invariant
                n == path@.len(),
                s <= end <= n,
                end > 0,
                segment_start(path@, s as int) == segment_start(path@, end as int),
            decreases s,
        {
            s = s - 1;
        }
        proof {
            lemma_segment_start(path@, end as int);
        }
        assert(s as int == segment_start(path@, end as int));
        if s < end && !(end - s == 1 && path.get_char(s) == '.') {
            return Some((s, end));
        }
        if s == 0 {
            return None;
        }
        end = s - 1;
    }
}

/// Whether `path` names an audio file: its extension (as `Path::extension`),
/// compared without regard to ASCII case, is one of mp3, flac, ogg, opus,
/// m4a, aac, wav, aiff or wv.
pub fn is_audio_file(path: &str) -> (r: bool)
    ensures
        r == is_audio_path(path@),
{
    let bounds = last_component_of(path);
    let (s, e) = match bounds {
        Some(b) => b,
        None => {
            return false;
        },
    };
    assert(s < e <= path@.len());
    let ghost name = path@.subrange(s as int, e as int);
    if e - s == 2 && path.get_char(s) == '.' && path.get_char(s + 1) == '.' {
        assert(name =~= seq!['.', '.']);
        return false;
    }
    assert(name != seq!['.', '.']) by {
        if name == seq!['.', '.'] {
            assert(name.len() == 2);
            assert(e - s == 2);
            assert(name[0] == '.' && name[1] == '.');
            assert(path@[s as int] == '.');
            assert(path@[s + 1] == '.');
        }
    }
    assert(file_name(path@) == Some(name));
    // Find the last '.' of the name.
    let mut d: usize = e;
    while d > s && path.get_char(d - 1) != '.'
        invariant
            s <= d <= e <= path@.len(),
            name == path@.subrange(s as int, e as int),
            last_dot(path@.subrange(s as int, d as int)) == last_dot(name),
        decreases d,
    {
        proof {
            let sub = path@.subrange(s as int, d as int);
            assert(sub.drop_last() =~= path@.subrange(s as int, d - 1));
        }
        d = d - 1;
    }
    proof {
        let sub = path@.subrange(s as int, d as int);
        if d > s {
            assert(sub.last() == '.');
        } else {
            assert(sub.len() == 0);
        }
    }
    // The dot sits at name index d - 1 - s; it must not be the first
    // character.
    if d <= s + 1 {
        return false;
    }
    proof {
        assert(name.subrange(d - s, name.len() as int) =~= path@.subrange(d as int, e as int));
    }
    proof {
        reveal_strlit("mp3");
        reveal_strlit("flac");
        reveal_strlit("ogg");
        reveal_strlit("opus");
        reveal_strlit("m4a");
        reveal_strlit("aac");
        reveal_strlit("wav");
        reveal_strlit("aiff");
        reveal_strlit("wv");
    }
    let r = lowered_equals(path, d, e, "mp3") || lowered_equals(path, d, e, "flac")
        || lowered_equals(path, d, e, "ogg") || lowered_equals(path, d, e, "opus")
        || lowered_equals(path, d, e, "m4a") || lowered_equals(path, d, e, "aac")
        || lowered_equals(path, d, e, "wav") || lowered_equals(path, d, e, "aiff")
        || lowered_equals(path, d, e, "wv");
    proof {
        let ext = ascii_lowered(path@.subrange(d as int, e as int));
        let exts = audio_extensions();
        assert("mp3"@ =~= exts[0]);
        assert("flac"@ =~= exts[1]);
        assert("ogg"@ =~= exts[2]);
        assert("opus"@ =~= exts[3]);
        assert("m4a"@ =~= exts[4]);
        assert("aac"@ =~= exts[5]);
        assert("wav"@ =~= exts[6]);
        assert("aiff"@ =~= exts[7]);
        assert("wv"@ =~= exts[8]);
        if exts.contains(ext) {
            let k = choose|k: int| 0 <= k < exts.len() && exts[k] == ext;
            assert(0 <= k < 9);
        }
    }
    r
}

/// The paths of `ps` that name audio files, in their order.
pub open spec fn audio_only(ps: Seq<String>) -> Seq<String>
    decreases ps.len(),
{
    if ps.len() == 0 {
        Seq::empty()
    } else {
        let rest = audio_only(ps.drop_last());
        if is_audio_path(ps.last()@) {
            rest.push(ps.last())
        } else {
            rest
        }
    }
}

/// The files a directory walk found that are audio files, in the order
/// found.
pub fn audio_paths(paths: &Vec<String>) -> (r: Vec<String>)
    ensures
        r@ == audio_only(paths@),
{
    let mut r: Vec<String> = Vec::new();
    let mut i: usize = 0;
    while i < paths.len()
        invariant
            i <= paths.len(),
            r@ == audio_only(paths@.take(i as int)),
        decreases paths.len() - i,
    {
        proof {
            assert(paths@.take(i + 1).drop_last() =~= paths@.take(i as int));
        }
        if is_audio_file(paths[i].as_str()) {
            r.push(paths[i].clone());
        }
        i += 1;
    }
    proof {
        assert(paths@.take(paths@.len() as int) =~= paths@);
    }
    r
}

// ---------------------------------------------------------------------------
// Scan decisions and tally
// ---------------------------------------------------------------------------

/// Phase of a scan operation.
#[derive(Debug, Clone, Copy, PartialEq, Eq, Structural)]
pub enum ScanPhase {
    /// Walking the directory tree to discover audio files.
    Discovering,
    /// Reading metadata from discovered files.
    Reading,
    /// Checking for files removed from disk.
    Verifying,
}

/// Progress update emitted during a scan.
#[derive(Debug, Clone)]
pub struct ScanProgress {
    pub phase: ScanPhase,
    pub current: usize,
    pub total: usize,
    pub current_file: Option<String>,
}

/// What the scanner does with an audio file found on disk.
#[derive(Debug, Clone, Copy, PartialEq, Eq, Structural)]
pub enum FileChange {
    /// Not in the library yet: read its metadata and insert it.
    New,
    /// In the library with the same modification time: nothing to do.
    Unchanged,
    /// In the library with another modification time: read its metadata
    /// again and update it.
    Modified,
}

/// What to do with a file whose stored location has modification time
/// `stored` (`None` when the library has no location for it) and whose
/// modification time on disk is `on_disk`.
pub open spec fn change_of(stored: Option<Option<i64>>, on_disk: Option<i64>) -> FileChange {
    match stored {
        None => FileChange::New,
        Some(t) => if t == on_disk {
            FileChange::Unchanged
        } else {
            FileChange::Modified
        },
    }
}

/// Classify a file found on disk against what the library stores for it.
pub fn classify_file(stored: Option<Option<i64>>, on_disk: Option<i64>) -> (r: FileChange)
    ensures
        r == change_of(stored, on_disk),
{
    match stored {
        None => FileChange::New,
        Some(t) => {
            let same = match (t, on_disk) {
                (None, None) => true,
                (Some(a), Some(b)) => a == b,
                _ => false,
            };
            if same {
                FileChange::Unchanged
            } else {
                FileChange::Modified
            }
        },
    }
}

/// Whether a location stored in the library is marked as missing after a
/// scan: it was not seen during the scan and does not exist on disk.
pub fn is_missing(seen_in_scan: bool, exists_on_disk: bool) -> (r: bool)
    ensures
        r == (!seen_in_scan && !exists_on_disk),
{
    !seen_in_scan && !exists_on_disk
}

/// Counts of a scan: files added, updated, marked missing, and failures.
#[derive(Debug, Clone, Copy, PartialEq, Eq, Structural)]
pub struct ScanTally {
    pub added: usize,
    pub updated: usize,
    pub removed: usize,
    pub errors: usize,
}

/// The tally after handling one file of change `change`, whose metadata
/// was read successfully when `metadata_ok`.
pub open spec fn tally_after(t: ScanTally, change: FileChange, metadata_ok: bool) -> ScanTally {
    match change {
        FileChange::Unchanged => t,
        FileChange::New => if metadata_ok {
            ScanTally { added: (t.added + 1) as usize, ..t }
        } else {
            ScanTally { errors: (t.errors + 1) as usize, ..t }
        },
        FileChange::Modified => if metadata_ok {
            ScanTally { updated: (t.updated + 1) as usize, ..t }
        } else {
            ScanTally { errors: (t.errors + 1) as usize, ..t }
        },
    }
}

impl ScanTally {
    /// All counts zero.
    pub fn new() -> (r: Self)
        ensures
            r == (ScanTally { added: 0, updated: 0, removed: 0, errors: 0 }),
    {
        ScanTally { added: 0, updated: 0, removed: 0, errors: 0 }
    }

    /// Count the outcome of one file: an unchanged file counts nowhere; a
    /// new or modified one counts as added or updated when its metadata was
    /// read, and as an error when it was not.
    pub fn record_file(&mut self, change: FileChange, metadata_ok: bool)
        requires
            old(self).added < usize::MAX,
            old(self).updated < usize::MAX,
            old(self).errors < usize::MAX,
        ensures
            *final(self) == tally_after(*old(self), change, metadata_ok),
    {
        match change {
            FileChange::Unchanged => {},
            FileChange::New => {
                if metadata_ok {
                    self.added = self.added + 1;
                } else {
                    self.errors = self.errors + 1;
                }
            },
            FileChange::Modified => {
                if metadata_ok {
                    self.updated = self.updated + 1;
                } else {
                    self.errors = self.errors + 1;
                }
            },
        }
    }

    /// Count a file that could not be examined (no relative path, no file
    /// metadata).
    pub fn record_error(&mut self)
        requires
            old(self).errors < usize::MAX,
        ensures
            *final(self) == (ScanTally { errors: (old(self).errors + 1) as usize, ..*old(self) }),
    {
        self.errors = self.errors + 1;
    }

    /// Count a location marked as missing.
    pub fn record_removed(&mut self)
        requires
            old(self).removed < usize::MAX,
        ensures
            *final(self) == (ScanTally { removed: (old(self).removed + 1) as usize, ..*old(self) }),
    {
        self.removed = self.removed + 1;
    }

    /// Add the counts of another scan (several directories scanned in
    /// turn).
    pub fn merge(&mut self, other: &ScanTally)
        requires
            old(self).added + other.added <= usize::MAX,
            old(self).updated + other.updated <= usize::MAX,
            old(self).removed + other.removed <= usize::MAX,
            old(self).errors + other.errors <= usize::MAX,
        ensures
            final(self).added == old(self).added + other.added,
            final(self).updated == old(self).updated + other.updated,
            final(self).removed == old(self).removed + other.removed,
            final(self).errors == old(self).errors + other.errors,
    {
        self.added = self.added + other.added;
        self.updated = self.updated + other.updated;
        self.removed = self.removed + other.removed;
        self.errors = self.errors + other.errors;
    }
}

/// Every file handled raises the total of the tally by one, except an
/// unchanged file, which leaves the tally as it was.
pub proof fn law_each_file_counted_once(t: ScanTally, change: FileChange, metadata_ok: bool)
    requires
        t.added < usize::MAX,
        t.updated < usize::MAX,
        t.errors < usize::MAX,
    ensures
        ({
            let u = tally_after(t, change, metadata_ok);
            &&& u.removed == t.removed
            &&& change == FileChange::Unchanged ==> u == t
            &&& change != FileChange::Unchanged ==> u.added + u.updated + u.errors == t.added
                + t.updated + t.errors + 1
        }),
{
}

/// A file the library knows is unchanged exactly when its stored
/// modification time equals its time on disk; any other difference, an
/// older time on disk included, makes it modified. A file the library does
/// not know is new.
pub proof fn law_unchanged_only_when_times_equal(stored: Option<i64>, on_disk: Option<i64>)
    ensures
        change_of(Some(stored), on_disk) == FileChange::Unchanged <==> stored == on_disk,
        change_of(Some(stored), on_disk) == FileChange::Modified <==> stored != on_disk,
        change_of(None, on_disk) == FileChange::New,
        change_of(Some(stored), on_disk) != FileChange::New,
{
}

/// Where a handled file counts: a new file whose metadata was read is
/// added, a modified one so read is updated, a new or modified one whose
/// metadata could not be read is an error, and an unchanged one counts
/// nowhere; no other count moves.
pub proof fn law_file_counts_where_it_belongs(t: ScanTally, change: FileChange, metadata_ok: bool)
    requires
        t.added < usize::MAX,
        t.updated < usize::MAX,
        t.errors < usize::MAX,
    ensures
        ({
            let u = tally_after(t, change, metadata_ok);
            let counted = change != FileChange::Unchanged;
            &&& u.added == t.added + (if counted && metadata_ok && change == FileChange::New { 1int } else { 0int })
            &&& u.updated == t.updated + (if counted && metadata_ok && change == FileChange::Modified {
                1int
            } else {
                0int
            })
            &&& u.errors == t.errors + (if counted && !metadata_ok { 1int } else { 0int })
            &&& u.removed == t.removed
        }),
{
}

/// A file whose stored and on-disk modification times agree is never read
/// again; a file the library does not know is always new.
pub proof fn law_rescan_skips_unchanged(on_disk: Option<i64>)
    ensures
        change_of(Some(on_disk), on_disk) == FileChange::Unchanged,
        change_of(None, on_disk) == FileChange::New,
{
}


// ---------------------------------------------------------------------------
// The run of a directory scan
// ---------------------------------------------------------------------------

/// What became of one discovered file in a scan.
#[derive(Debug, Clone, Copy, PartialEq, Eq, Structural)]
pub enum FileOutcome {
    /// It has no path relative to the scanned directory.
    NoPath,
    /// It could not be examined on disk.
    Unreadable,
    /// It was classified as the change, and its metadata read (`true`) or
    /// not.
    Handled(FileChange, bool),
}

/// The tally after one more file of outcome `o`.
pub open spec fn outcome_step(t: ScanTally, o: FileOutcome) -> ScanTally {
    match o {
        FileOutcome::Handled(change, ok) => tally_after(t, change, ok),
        _ => ScanTally { errors: (t.errors + 1) as usize, ..t },
    }
}

/// The counts of a scan whose files had the outcomes `os`, in order.
pub open spec fn outcomes_tally(os: Seq<FileOutcome>) -> ScanTally
    decreases os.len(),
{
    if os.len() == 0 {
        ScanTally { added: 0, updated: 0, removed: 0, errors: 0 }
    } else {
        outcome_step(outcomes_tally(os.drop_last()), os.last())
    }
}

/// The number of files among outcomes `os` that were reported as read:
/// all but those without a relative path.
pub open spec fn reports_of(os: Seq<FileOutcome>) -> nat
    decreases os.len(),
{
    if os.len() == 0 {
        0
    } else {
        reports_of(os.drop_last()) + if os.last() == FileOutcome::NoPath {
            0nat
        } else {
            1nat
        }
    }
}

/// The counts of a whole scan: every file counts at most once, as added,
/// updated or an error, none counts as removed, and at most one report of
/// reading is given per file (exactly one when every file has a relative
/// path).
pub proof fn law_scan_counts(os: Seq<FileOutcome>)
    requires
        os.len() <= usize::MAX,
    ensures
        outcomes_tally(os).removed == 0,
        outcomes_tally(os).added + outcomes_tally(os).updated + outcomes_tally(os).errors <= os.len(),
        reports_of(os) <= os.len(),
        (forall|i: int| 0 <= i < os.len() ==> os[i] != FileOutcome::NoPath) ==> reports_of(os)
            == os.len(),
    decreases os.len(),
{
    if os.len() > 0 {
        let rest = os.drop_last();
        law_scan_counts(rest);
        assert forall|i: int| 0 <= i < rest.len() implies rest[i] == os[i] by {}
    }
}

/// Whether a file was found unchanged.
pub open spec fn is_unchanged(o: FileOutcome) -> bool {
    o matches FileOutcome::Handled(c, _) && c == FileChange::Unchanged
}

/// A rescan in which every file is unchanged counts nothing: no file is
/// added, updated or an error.
pub proof fn law_unchanged_scan_counts_nothing(os: Seq<FileOutcome>)
    requires
        forall|i: int| 0 <= i < os.len() ==> is_unchanged(#[trigger] os[i]),
    ensures
        outcomes_tally(os) == (ScanTally { added: 0, updated: 0, removed: 0, errors: 0 }),
    decreases os.len(),
{
    if os.len() > 0 {
        let rest = os.drop_last();
        assert forall|i: int| 0 <= i < rest.len() implies is_unchanged(#[trigger] rest[i]) by {
            assert(rest[i] == os[i]);
        }
        law_unchanged_scan_counts_nothing(rest);
        assert(os[os.len() - 1] == os.last());
    }
}

/// The outcomes of a rescan in which each file's stored modification time
/// is its time on disk `disk[i]`, its metadata read or not (`ok[i]`).
pub open spec fn rescan_outcomes(disk: Seq<Option<i64>>, ok: Seq<bool>) -> Seq<FileOutcome> {
    Seq::new(disk.len(), |i: int| FileOutcome::Handled(change_of(Some(disk[i]), disk[i]), ok[i]))
}

/// Scanning again a directory in which no file changed adds, updates and
/// fails nothing: each file's stored time is its time on disk, so each is
/// unchanged.
pub proof fn law_rescan_without_changes(disk: Seq<Option<i64>>, ok: Seq<bool>)
    requires
        ok.len() == disk.len(),
    ensures
        outcomes_tally(rescan_outcomes(disk, ok)) == (ScanTally {
            added: 0,
            updated: 0,
            removed: 0,
            errors: 0,
        }),
{
    let os = rescan_outcomes(disk, ok);
    assert forall|i: int| 0 <= i < os.len() implies is_unchanged(#[trigger] os[i]) by {
        law_rescan_skips_unchanged(disk[i]);
    }
    law_unchanged_scan_counts_nothing(os);
}

proof fn lemma_push_outcome(os: Seq<FileOutcome>, o: FileOutcome)
    ensures
        outcomes_tally(os.push(o)) == outcome_step(outcomes_tally(os), o),
        reports_of(os.push(o)) == reports_of(os) + if o == FileOutcome::NoPath {
            0nat
        } else {
            1nat
        },
{
    assert(os.push(o).drop_last() =~= os);
}

/// The state of one directory scan, driven by the caller that walks the
/// disk and the library: discovery, then one step per discovered file,
/// then one step per location the library stores for the directory.
pub struct ScanRun {
    phase: ScanPhase,
    files: usize,
    locations: usize,
    done: usize,
    awaiting: bool,
    tally: ScanTally,
    /// The outcome of each file whose outcome is known, in order.
    outcomes: Ghost<Seq<FileOutcome>>,
    /// The number of reports of reading given so far.
    reports: Ghost<nat>,
}

impl ScanRun {
    /// The phase the scan is in.
    pub closed spec fn spec_phase(&self) -> ScanPhase {
        self.phase
    }

    /// The number of audio files discovered.
    pub closed spec fn spec_files(&self) -> nat {
        self.files as nat
    }

    /// The number of stored locations to verify.
    pub closed spec fn spec_locations(&self) -> nat {
        self.locations as nat
    }

    /// The number of files (while reading) or locations (while verifying)
    /// stepped through so far in the current phase.
    pub closed spec fn spec_done(&self) -> nat {
        self.done as nat
    }

    /// Whether the last file stepped through still waits for its outcome.
    pub closed spec fn spec_awaiting(&self) -> bool {
        self.awaiting
    }

    /// The counts so far.
    pub closed spec fn spec_tally(&self) -> ScanTally {
        self.tally
    }

    /// The outcomes of the files so far, in order.
    pub closed spec fn spec_outcomes(&self) -> Seq<FileOutcome> {
        self.outcomes@
    }

    /// The number of reports of reading given so far.
    pub closed spec fn spec_reports(&self) -> nat {
        self.reports@
    }

    #[verifier::type_invariant]
    spec fn well_formed(self) -> bool {
        let t = self.tally;
        let handled = t.added + t.updated + t.errors;
        let os = self.outcomes@;
        let pending: int = if self.awaiting { 1 } else { 0 };
        &&& self.awaiting ==> self.phase == ScanPhase::Reading && self.done >= 1
        &&& match self.phase {
            ScanPhase::Discovering => {
                &&& self.files == 0
                &&& self.locations == 0
                &&& self.done == 0
                &&& t == ScanTally { added: 0, updated: 0, removed: 0, errors: 0 }
                &&& os.len() == 0
                &&& self.reports@ == 0
            },
            ScanPhase::Reading => {
                &&& self.locations == 0
                &&& self.done <= self.files
                &&& t.removed == 0
                &&& handled + pending <= self.done
                &&& os.len() + pending == self.done
                &&& t == outcomes_tally(os)
                &&& self.reports@ == reports_of(os) + pending
            },
            ScanPhase::Verifying => {
                &&& self.done <= self.locations
                &&& handled <= self.files
                &&& t.removed <= self.done
                &&& os.len() == self.files
                &&& t.added == outcomes_tally(os).added
                &&& t.updated == outcomes_tally(os).updated
                &&& t.errors == outcomes_tally(os).errors
                &&& self.reports@ == reports_of(os)
            },
        }
    }

    /// Begin a scan: the state is discovery, and the first progress report
    /// says so, with no counts and no file.
    pub fn start() -> (r: (ScanRun, ScanProgress))
        ensures
            r.0.spec_phase() == ScanPhase::Discovering,
            r.0.spec_files() == 0,
            r.0.spec_locations() == 0,
            r.0.spec_done() == 0,
            !r.0.spec_awaiting(),
            r.0.spec_tally() == (ScanTally { added: 0, updated: 0, removed: 0, errors: 0 }),
            r.0.spec_outcomes() == Seq::<FileOutcome>::empty(),
            r.0.spec_reports() == 0,
            r.1.phase == ScanPhase::Discovering,
            r.1.current == 0,
            r.1.total == 0,
            r.1.current_file is None,
    {
        let run = ScanRun {
            phase: ScanPhase::Discovering,
            files: 0,
            locations: 0,
            done: 0,
            awaiting: false,
            tally: ScanTally::new(),
            outcomes: Ghost(Seq::empty()),
            reports: Ghost(0),
        };
        (run, ScanProgress { phase: ScanPhase::Discovering, current: 0, total: 0, current_file: None })
    }

    /// The phase the scan is in.
    pub fn phase(&self) -> (r: ScanPhase)
        ensures
            r == self.spec_phase(),
    {
        self.phase
    }

    /// Discovery found `files` audio files: reading begins.
    pub fn discovered(&mut self, files: usize)
        requires
            old(self).spec_phase() == ScanPhase::Discovering,
        ensures
            final(self).spec_phase() == ScanPhase::Reading,
            final(self).spec_files() == files,
            final(self).spec_locations() == 0,
            final(self).spec_done() == 0,
            !final(self).spec_awaiting(),
            final(self).spec_tally() == old(self).spec_tally(),
            final(self).spec_outcomes() == old(self).spec_outcomes(),
            final(self).spec_reports() == old(self).spec_reports(),
    {
        proof {
            use_type_invariant(&*self);
        }
        *self = ScanRun {
            phase: ScanPhase::Reading,
            files,
            locations: 0,
            done: 0,
            awaiting: false,
            tally: self.tally,
            outcomes: Ghost(self.outcomes@),
            reports: Ghost(self.reports@),
        };
    }

    /// Step to the next discovered file, given its path relative to the
    /// scanned directory (`None` when it has none). A file without one is
    /// counted as an error and reported nowhere; any other is reported as
    /// read (its position among the files, from 1) and waits for its
    /// outcome.
    pub fn next_file(&mut self, relative: Option<String>) -> (r: Option<ScanProgress>)
        requires
            old(self).spec_phase() == ScanPhase::Reading,
            old(self).spec_done() < old(self).spec_files(),
            !old(self).spec_awaiting(),
        ensures
            final(self).spec_phase() == ScanPhase::Reading,
            final(self).spec_files() == old(self).spec_files(),
            final(self).spec_locations() == 0,
            final(self).spec_done() == old(self).spec_done() + 1,
            relative is None ==> {
                &&& r is None
                &&& !final(self).spec_awaiting()
                &&& final(self).spec_tally() == (ScanTally {
                    errors: (old(self).spec_tally().errors + 1) as usize,
                    ..old(self).spec_tally()
                })
                &&& final(self).spec_outcomes() == old(self).spec_outcomes().push(FileOutcome::NoPath)
                &&& final(self).spec_reports() == old(self).spec_reports()
            },
            relative is Some ==> {
                &&& r == Some(
                    ScanProgress {
                        phase: ScanPhase::Reading,
                        current: (old(self).spec_done() + 1) as usize,
                        total: old(self).spec_files() as usize,
                        current_file: relative,
                    },
                )
                &&& final(self).spec_awaiting()
                &&& final(self).spec_tally() == old(self).spec_tally()
                &&& final(self).spec_outcomes() == old(self).spec_outcomes()
                &&& final(self).spec_reports() == old(self).spec_reports() + 1
            },
    {
        proof {
            use_type_invariant(&*self);
        }
        let done = self.done + 1;
        match relative {
            None => {
                let mut t = self.tally;
                t.record_error();
                proof {
                    lemma_push_outcome(self.outcomes@, FileOutcome::NoPath);
                }
                *self = ScanRun {
                    phase: ScanPhase::Reading,
                    files: self.files,
                    locations: 0,
                    done,
                    awaiting: false,
                    tally: t,
                    outcomes: Ghost(self.outcomes@.push(FileOutcome::NoPath)),
                    reports: Ghost(self.reports@),
                };
                None
            },
            Some(name) => {
                *self = ScanRun {
                    phase: ScanPhase::Reading,
                    files: self.files,
                    locations: 0,
                    done,
                    awaiting: true,
                    tally: self.tally,
                    outcomes: Ghost(self.outcomes@),
                    reports: Ghost(self.reports@ + 1),
                };
                Some(
                    ScanProgress {
                        phase: ScanPhase::Reading,
                        current: done,
                        total: self.files,
                        current_file: Some(name),
                    },
                )
            },
        }
    }

    /// The file waiting for its outcome could not be examined on disk: it
    /// counts as an error.
    pub fn file_unreadable(&mut self)
        requires
            old(self).spec_awaiting(),
        ensures
            final(self).spec_phase() == ScanPhase::Reading,
            final(self).spec_files() == old(self).spec_files(),
            final(self).spec_locations() == 0,
            final(self).spec_done() == old(self).spec_done(),
            !final(self).spec_awaiting(),
            final(self).spec_tally() == (ScanTally {
                errors: (old(self).spec_tally().errors + 1) as usize,
                ..old(self).spec_tally()
            }),
            final(self).spec_outcomes() == old(self).spec_outcomes().push(FileOutcome::Unreadable),
            final(self).spec_reports() == old(self).spec_reports(),
    {
        proof {
            use_type_invariant(&*self);
            lemma_push_outcome(self.outcomes@, FileOutcome::Unreadable);
        }
        let mut t = self.tally;
        t.record_error();
        *self = ScanRun {
            phase: ScanPhase::Reading,
            files: self.files,
            locations: 0,
            done: self.done,
            awaiting: false,
            tally: t,
            outcomes: Ghost(self.outcomes@.push(FileOutcome::Unreadable)),
            reports: Ghost(self.reports@),
        };
    }

    /// The file waiting for its outcome was classified as `change`, and
    /// its metadata read (`metadata_ok`) or not: it is counted as
    /// `tally_after` says.
    pub fn file_handled(&mut self, change: FileChange, metadata_ok: bool)
        requires
            old(self).spec_awaiting(),
        ensures
            final(self).spec_phase() == ScanPhase::Reading,
            final(self).spec_files() == old(self).spec_files(),
            final(self).spec_locations() == 0,
            final(self).spec_done() == old(self).spec_done(),
            !final(self).spec_awaiting(),
            final(self).spec_tally() == tally_after(old(self).spec_tally(), change, metadata_ok),
            final(self).spec_outcomes() == old(self).spec_outcomes().push(
                FileOutcome::Handled(change, metadata_ok),
            ),
            final(self).spec_reports() == old(self).spec_reports(),
    {
        proof {
            use_type_invariant(&*self);
            lemma_push_outcome(self.outcomes@, FileOutcome::Handled(change, metadata_ok));
        }
        let mut t = self.tally;
        t.record_file(change, metadata_ok);
        *self = ScanRun {
            phase: ScanPhase::Reading,
            files: self.files,
            locations: 0,
            done: self.done,
            awaiting: false,
            tally: t,
            outcomes: Ghost(self.outcomes@.push(FileOutcome::Handled(change, metadata_ok))),
            reports: Ghost(self.reports@),
        };
    }

    /// Every discovered file was stepped through and has its outcome:
    /// verification of the `locations` stored locations begins.
    pub fn verifying(&mut self, locations: usize)
        requires
            old(self).spec_phase() == ScanPhase::Reading,
            old(self).spec_done() == old(self).spec_files(),
            !old(self).spec_awaiting(),
        ensures
            final(self).spec_phase() == ScanPhase::Verifying,
            final(self).spec_files() == old(self).spec_files(),
            final(self).spec_locations() == locations,
            final(self).spec_done() == 0,
            !final(self).spec_awaiting(),
            final(self).spec_tally() == old(self).spec_tally(),
            final(self).spec_outcomes() == old(self).spec_outcomes(),
            final(self).spec_reports() == old(self).spec_reports(),
    {
        proof {
            use_type_invariant(&*self);
        }
        *self = ScanRun {
            phase: ScanPhase::Verifying,
            files: self.files,
            locations,
            done: 0,
            awaiting: false,
            tally: self.tally,
            outcomes: Ghost(self.outcomes@),
            reports: Ghost(self.reports@),
        };
    }

    /// Step to the next stored location, `filename`, which was seen during
    /// the scan or not and exists on disk or not. Gives the progress report
    /// (its position among the locations, from 1) and whether the location
    /// is marked missing, which counts it as removed.
    pub fn next_location(&mut self, filename: String, seen_in_scan: bool, exists_on_disk: bool) -> (r: (
        ScanProgress,
        bool,
    ))
        requires
            old(self).spec_phase() == ScanPhase::Verifying,
            old(self).spec_done() < old(self).spec_locations(),
        ensures
            final(self).spec_phase() == ScanPhase::Verifying,
            final(self).spec_files() == old(self).spec_files(),
            final(self).spec_locations() == old(self).spec_locations(),
            final(self).spec_done() == old(self).spec_done() + 1,
            !final(self).spec_awaiting(),
            final(self).spec_outcomes() == old(self).spec_outcomes(),
            final(self).spec_reports() == old(self).spec_reports(),
            r.0 == (ScanProgress {
                phase: ScanPhase::Verifying,
                current: (old(self).spec_done() + 1) as usize,
                total: old(self).spec_locations() as usize,
                current_file: Some(filename),
            }),
            r.1 == (!seen_in_scan && !exists_on_disk),
            final(self).spec_tally() == if r.1 {
                ScanTally { removed: (old(self).spec_tally().removed + 1) as usize, ..old(self).spec_tally() }
            } else {
                old(self).spec_tally()
            },
    {
        proof {
            use_type_invariant(&*self);
        }
        let done = self.done + 1;
        let missing = is_missing(seen_in_scan, exists_on_disk);
        let mut t = self.tally;
        if missing {
            t.record_removed();
        }
        *self = ScanRun {
            phase: ScanPhase::Verifying,
            files: self.files,
            locations: self.locations,
            done,
            awaiting: false,
            tally: t,
            outcomes: Ghost(self.outcomes@),
            reports: Ghost(self.reports@),
        };
        let progress = ScanProgress {
            phase: ScanPhase::Verifying,
            current: done,
            total: self.locations,
            current_file: Some(filename),
        };
        (progress, missing)
    }

    /// End the scan once every stored location was stepped through. Every
    /// discovered file has its outcome and was counted as its outcome says,
    /// one report of reading was given per file with a relative path, and
    /// every stored location was counted at most once, as removed.
    pub fn finish(self) -> (r: ScanTally)
        requires
            self.spec_phase() == ScanPhase::Verifying,
            self.spec_done() == self.spec_locations(),
        ensures
            r == self.spec_tally(),
            self.spec_outcomes().len() == self.spec_files(),
            r.added == outcomes_tally(self.spec_outcomes()).added,
            r.updated == outcomes_tally(self.spec_outcomes()).updated,
            r.errors == outcomes_tally(self.spec_outcomes()).errors,
            self.spec_reports() == reports_of(self.spec_outcomes()),
            r.added + r.updated + r.errors <= self.spec_files(),
            r.removed <= self.spec_locations(),
    {
        proof {
            use_type_invariant(&self);
        }
        self.tally
    }
}

} // verus!
