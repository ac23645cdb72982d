//! Music library: domain model, SQL text and schema migration decisions.

use vstd::prelude::*;
use vstd::string::*;
use crate::text::{strip_suffix, trim, trimmed};

verus! {

/// Where a track file lives: a directory and a file name relative to it.
#[derive(Debug, Clone)]
pub struct TrackLocation {
    pub id: i64,
    pub directory_id: i64,
    pub filename: String,
    pub filesize: Option<i64>,
    pub fs_modified_at: Option<i64>,
    pub needs_verification: bool,
}

/// Data to insert a new track location (no `id` yet).
#[derive(Debug, Clone)]
pub struct NewTrackLocation {
    pub directory_id: i64,
    pub filename: String,
    pub filesize: Option<i64>,
    pub fs_modified_at: Option<i64>,
}

/// A music directory registered for scanning.
#[derive(Debug, Clone)]
pub struct Directory {
    pub id: i64,
    pub path: String,
}

/// A playlist row.
#[derive(Debug, Clone)]
pub struct Playlist {
    pub id: i64,
    pub name: String,
    pub position: i32,
    pub created_at: i64,
    pub is_locked: bool,
}

/// A crate (a named collection of tracks).
#[derive(Debug, Clone)]
pub struct Crate {
    pub id: i64,
    pub name: String,
    pub created_at: i64,
}

/// Embedded cover art extracted from an audio file.
#[derive(Debug, Clone)]
pub struct CoverArt {
    pub data: Vec<u8>,
    pub mime_type: String,
}

/// `s` without a trailing `dB` (or `db`), if it has one.
pub open spec fn without_db(s: Seq<char>) -> Seq<char> {
    let n = s.len();
    if n >= 2 && s[n - 2] == 'd' && (s[n - 1] == 'B' || s[n - 1] == 'b') {
        s.subrange(0, n - 2)
    } else {
        s
    }
}

/// Reads track metadata and cover art from audio files.
pub struct MetadataReader;

impl MetadataReader {
    /// The number text of a replay-gain tag such as `"+1.23 dB"`: the tag
    /// trimmed, without a trailing `dB` or `db`, trimmed again.
    pub fn gain_number_text(tag: &str) -> (r: &str)
        ensures
            r@ == trimmed(without_db(trimmed(tag@))),
    {
        let t = trim(tag);
        proof {
            reveal_strlit("dB");
            reveal_strlit("db");
        }
        let stripped = match strip_suffix(t, "dB") {
            Some(rest) => rest,
            None => match strip_suffix(t, "db") {
                Some(rest) => rest,
                None => t,
            },
        };
        proof {
            let n = t@.len();
            if n >= 2 {
                let tail = t@.subrange(n - 2, n as int);
                assert(tail == "dB"@ <==> (t@[n - 2] == 'd' && t@[n - 1] == 'B')) by {
                    if t@[n - 2] == 'd' && t@[n - 1] == 'B' {
                        assert(tail =~= "dB"@);
                    }
                    if tail == "dB"@ {
                        assert(tail[0] == t@[n - 2]);
                        assert(tail[1] == t@[n - 1]);
                    }
                }
                assert(tail == "db"@ <==> (t@[n - 2] == 'd' && t@[n - 1] == 'b')) by {
                    if t@[n - 2] == 'd' && t@[n - 1] == 'b' {
                        assert(tail =~= "db"@);
                    }
                    if tail == "db"@ {
                        assert(tail[0] == t@[n - 2]);
                        assert(tail[1] == t@[n - 1]);
                    }
                }
            }
        }
        trim(stripped)
    }
}

/// Type of a cue point; stored as 0 (hot cue), 1 (intro), 2 (outro) or
/// 3 (loop).
#[derive(Debug, Clone, Copy, PartialEq, Eq, Structural)]
pub enum CueType {
    HotCue,
    Intro,
    Outro,
    Loop,
}

/// The stored code of a cue type.
pub open spec fn cue_code(t: CueType) -> i32 {
    match t {
        CueType::HotCue => 0,
        CueType::Intro => 1,
        CueType::Outro => 2,
        CueType::Loop => 3,
    }
}

impl CueType {
    /// The cue type stored as `v`; `None` for codes outside `0..=3`.
    pub fn from_i32(v: i32) -> (r: Option<Self>)
        ensures
            r is Some <==> 0 <= v <= 3,
            r matches Some(t) ==> cue_code(t) == v,
    {
        match v {
            0 => Some(CueType::HotCue),
            1 => Some(CueType::Intro),
            2 => Some(CueType::Outro),
            3 => Some(CueType::Loop),
            _ => None,
        }
    }

    /// The code under which this cue type is stored.
    pub fn code(&self) -> (r: i32)
        ensures
            r == cue_code(*self),
    {
        match self {
            CueType::HotCue => 0,
            CueType::Intro => 1,
            CueType::Outro => 2,
            CueType::Loop => 3,
        }
    }
}

/// Storing a cue type and reading it back gives the same type.
pub proof fn law_cue_code_round_trip(t: CueType, u: CueType)
    ensures
        0 <= cue_code(t) <= 3,
        cue_code(t) == cue_code(u) ==> t == u,
{
}

/// Columns available for sorting track listings.
#[derive(Debug, Clone, Copy, PartialEq, Eq, Structural)]
pub enum SortColumn {
    Title,
    Artist,
    Album,
    Duration,
    Bpm,
    Key,
    Rating,
    AddedAt,
}

/// The database column of a sort column.
pub open spec fn sort_column_name(c: SortColumn) -> Seq<char> {
    match c {
        SortColumn::Title => "title"@,
        SortColumn::Artist => "artist"@,
        SortColumn::Album => "album"@,
        SortColumn::Duration => "duration_secs"@,
        SortColumn::Bpm => "bpm"@,
        SortColumn::Key => "key"@,
        SortColumn::Rating => "rating"@,
        SortColumn::AddedAt => "added_at"@,
    }
}

impl SortColumn {
    /// The database column to sort by.
    pub fn as_sql(&self) -> (r: &'static str)
        ensures
            r@ == sort_column_name(*self),
    {
        match self {
            SortColumn::Title => "title",
            SortColumn::Artist => "artist",
            SortColumn::Album => "album",
            SortColumn::Duration => "duration_secs",
            SortColumn::Bpm => "bpm",
            SortColumn::Key => "key",
            SortColumn::Rating => "rating",
            SortColumn::AddedAt => "added_at",
        }
    }
}

/// Sort direction.
#[derive(Debug, Clone, Copy, PartialEq, Eq, Structural)]
pub enum SortOrder {
    Asc,
    Desc,
}

/// SQL keyword of a sort direction.
pub open spec fn sort_order_keyword(o: SortOrder) -> Seq<char> {
    match o {
        SortOrder::Asc => "ASC"@,
        SortOrder::Desc => "DESC"@,
    }
}

impl SortOrder {
    /// SQL keyword of the direction.
    pub fn as_sql(&self) -> (r: &'static str)
        ensures
            r@ == sort_order_keyword(*self),
    {
        match self {
            SortOrder::Asc => "ASC",
            SortOrder::Desc => "DESC",
        }
    }
}

/// Start of the track listing query, up to the sort column.
pub open spec fn listing_head() -> Seq<char> {
    "SELECT id, location_id, title, artist, album, album_artist, genre,
                    year, track_number, comment, duration_secs, sample_rate,
                    channels, bitrate, bpm, key, rating, play_count,
                    last_played_at, replay_gain, added_at, cover_art_hash, analyzed
             FROM tracks
             ORDER BY "@
}

/// End of the track listing query, after the sort direction.
pub open spec fn listing_tail() -> Seq<char> {
    "
             LIMIT ?1 OFFSET ?2"@
}

/// Track data access: the SQL text of track queries.
pub struct TrackDao;

impl TrackDao {
    /// The query listing tracks sorted by `sort` in direction `order`, with
    /// `?1` the limit and `?2` the offset.
    pub fn listing_sql(sort: SortColumn, order: SortOrder) -> (r: String)
        ensures
            r@ == listing_head() + sort_column_name(sort) + seq![' '] + sort_order_keyword(order)
                + listing_tail(),
    {
        let mut sql = String::from_str(
            "SELECT id, location_id, title, artist, album, album_artist, genre,
                    year, track_number, comment, duration_secs, sample_rate,
                    channels, bitrate, bpm, key, rating, play_count,
                    last_played_at, replay_gain, added_at, cover_art_hash, analyzed
             FROM tracks
             ORDER BY ",
        );
        sql.append(sort.as_sql());
        proof {
            reveal_strlit(" ");
        }
        sql.append(" ");
        sql.append(order.as_sql());
        sql.append(
            "
             LIMIT ?1 OFFSET ?2",
        );
        sql
    }

    /// The `LIKE` pattern matching titles, artists or albums that contain
    /// `query`.
    pub fn search_pattern(query: &str) -> (r: String)
        ensures
            r@ == seq!['%'] + query@ + seq!['%'],
    {
        proof {
            reveal_strlit("%");
        }
        let mut p = String::from_str("%");
        p.append(query);
        p.append("%");
        p
    }
}

/// Current schema version.
pub const CURRENT_SCHEMA_VERSION: u32 = 1;

/// What migration does to a database at a given schema version.
#[derive(Debug, Clone, Copy, PartialEq, Eq, Structural)]
pub enum MigrationStep {
    /// Fresh database: create all tables, then record the current version.
    CreateSchema,
    /// Older schema: record the current version.
    RecordVersion,
    /// Nothing to do.
    UpToDate,
}

/// The schema version after a migration from version `v`.
pub open spec fn version_after(v: u32) -> u32 {
    if v < CURRENT_SCHEMA_VERSION {
        CURRENT_SCHEMA_VERSION
    } else {
        v
    }
}

/// The migration step for a database at schema version `current`
/// (0 = no schema yet).
pub open spec fn migration_step(current: u32) -> MigrationStep {
    if current == 0 {
        MigrationStep::CreateSchema
    } else if current < CURRENT_SCHEMA_VERSION {
        MigrationStep::RecordVersion
    } else {
        MigrationStep::UpToDate
    }
}

/// Whether `s` is a decimal digit string.
pub open spec fn all_digits(s: Seq<char>) -> bool {
    s.len() > 0 && forall|i: int| 0 <= i < s.len() ==> '0' <= #[trigger] s[i] <= '9'
}

/// Value of a decimal digit string.
pub open spec fn digits_value(s: Seq<char>) -> int
    decreases s.len(),
{
    if s.len() == 0 {
        0
    } else {
        digits_value(s.drop_last()) * 10 + (s.last() as int - '0' as int)
    }
}

/// The digits of an unsigned decimal number: the text after an optional
/// leading `+`.
pub open spec fn unsigned_digits(s: Seq<char>) -> Seq<char> {
    if s.len() > 0 && s[0] == '+' {
        s.drop_first()
    } else {
        s
    }
}

/// The `u32` written as `s` in decimal (optional `+`, then digits only, no
/// whitespace), if it is one.
pub open spec fn parsed_u32(s: Seq<char>) -> Option<u32> {
    let d = unsigned_digits(s);
    if all_digits(d) && digits_value(d) <= u32::MAX {
        Some(digits_value(d) as u32)
    } else {
        None
    }
}

/// `str::parse::<u32>`: by its documentation the text must be an optional
/// `+` followed by decimal digits only, and the value must fit in a `u32`;
/// anything else is an error. The error's text (its `Display`) is passed on
/// as it is; nothing is claimed of it.
#[verifier::external_body]
fn parse_u32(s: &str) -> (r: Result<u32, String>)
    ensures
        r matches Ok(n) ==> parsed_u32(s@) == Some(n),
        r is Err ==> parsed_u32(s@) is None,
{
    s.parse::<u32>().map_err(|e| e.to_string())
}

/// Schema migration decisions.
pub struct MigrationManager;

impl MigrationManager {
    /// The migration step for a database at schema version `current`
    /// (0 = no schema yet).
    pub fn step(current: u32) -> (r: MigrationStep)
        ensures
            r == migration_step(current),
    {
        if current == 0 {
            MigrationStep::CreateSchema
        } else if current < CURRENT_SCHEMA_VERSION {
            MigrationStep::RecordVersion
        } else {
            MigrationStep::UpToDate
        }
    }

    /// The schema version recorded by the `schema_version` setting: 0 when
    /// the setting is absent, else its value, which must be a decimal `u32`
    /// (an error message beginning with `bad schema_version: ` otherwise).
    pub fn version_from_setting(setting: Option<&str>) -> (r: Result<u32, String>)
        ensures
            setting is None ==> r == Ok::<u32, String>(0),
            setting matches Some(v) ==> (r is Ok <==> parsed_u32(v@) is Some),
            setting matches Some(v) ==> (r matches Ok(n) ==> parsed_u32(v@) == Some(n)),
            r matches Err(m) ==> m@.subrange(0, 20) == "bad schema_version: "@,
    {
        match setting {
            None => Ok(0),
            Some(v) => match parse_u32(v) {
                Ok(n) => Ok(n),
                Err(e) => {
                    let mut m = String::from_str("bad schema_version: ");
                    m.append(e.as_str());
                    proof {
                        reveal_strlit("bad schema_version: ");
                        assert(m@.subrange(0, 20) =~= "bad schema_version: "@);
                    }
                    Err(m)
                },
            },
        }
    }
}

/// Migrating twice does nothing more than migrating once: after a migration
/// the next migration finds nothing to do.
pub proof fn law_migration_idempotent(v: u32)
    ensures
        migration_step(version_after(v)) == MigrationStep::UpToDate,
        version_after(version_after(v)) == version_after(v),
        migration_step(v) == MigrationStep::UpToDate <==> version_after(v) == v,
{
}

/// `s` with the entry at `from` taken out and put back at index `to`.
pub open spec fn moved<T>(s: Seq<T>, from: int, to: int) -> Seq<T> {
    s.remove(from).insert(to, s[from])
}

/// Move the entry at `from` so that it stands at `to`, shifting the
/// entries between them by one (the reordering of a playlist).
pub fn move_item<T>(v: &mut Vec<T>, from: usize, to: usize)
    requires
        from < old(v)@.len(),
        to < old(v)@.len(),
    ensures
        final(v)@ == moved(old(v)@, from as int, to as int),
{
    let x = v.remove(from);
    v.insert(to, x);
}

/// Moving an entry and moving it back restores the order, and a move keeps
/// every entry (the result is a rearrangement of the same entries).
pub proof fn law_move_round_trip<T>(s: Seq<T>, from: int, to: int)
    requires
        0 <= from < s.len(),
        0 <= to < s.len(),
    ensures
        moved(moved(s, from, to), to, from) == s,
        moved(s, from, to).len() == s.len(),
        moved(s, from, to)[to] == s[from],
        moved(s, from, to).to_multiset() == s.to_multiset(),
{
    let m = moved(s, from, to);
    assert(m[to] == s[from]);
    assert(m.remove(to) =~= s.remove(from));
    assert(moved(m, to, from) =~= s);
    vstd::seq_lib::to_multiset_remove(s, from);
    vstd::seq_lib::to_multiset_insert(s.remove(from), to, s[from]);
    s.to_multiset_ensures();
    assert(s.contains(s[from]));
    let ms = s.to_multiset();
    assert(ms.count(s[from]) > 0);
    broadcast use vstd::multiset::group_multiset_axioms;
    assert(ms.remove(s[from]).insert(s[from]) =~= ms);
}

/// A move shifts only the entries between the two places, by one toward
/// the place the entry left; entries outside that stretch keep their index.
pub proof fn law_move_shifts_between<T>(s: Seq<T>, from: int, to: int)
    requires
        0 <= from < s.len(),
        0 <= to < s.len(),
    ensures
        forall|i: int|
            0 <= i < s.len() && (i < from && i < to || i > from && i > to) ==> #[trigger] moved(
                s,
                from,
                to,
            )[i] == s[i],
        forall|i: int| from < to && from <= i < to ==> #[trigger] moved(s, from, to)[i] == s[i + 1],
        forall|i: int| to < from && to < i <= from ==> #[trigger] moved(s, from, to)[i] == s[i - 1],
{
}

} // verus!
