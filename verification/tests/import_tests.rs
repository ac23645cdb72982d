use rustymixer::import::{m3u_entry, pls_entry, resolve_entry, ImportResult};
use rustymixer::library::MetadataReader;

#[test]
fn m3u_skips_comments_and_blank_lines() {
    assert_eq!(m3u_entry("#EXTM3U"), None);
    assert_eq!(m3u_entry("# A comment"), None);
    assert_eq!(m3u_entry(""), None);
    assert_eq!(m3u_entry("   \t"), None);
    assert_eq!(m3u_entry("  #indented comment"), None);
    assert_eq!(m3u_entry("/music/song.mp3"), Some("/music/song.mp3"));
    assert_eq!(m3u_entry("  rel/song.mp3 \r"), Some("rel/song.mp3"));
    assert_eq!(m3u_entry("song#1.mp3"), Some("song#1.mp3"));
}

#[test]
fn pls_takes_file_entries() {
    assert_eq!(pls_entry("[playlist]"), None);
    assert_eq!(pls_entry("File1=/music/track.flac"), Some("/music/track.flac"));
    assert_eq!(pls_entry("  File12=rel/a=b.mp3  "), Some("rel/a=b.mp3"));
    assert_eq!(pls_entry("Title1=My Track"), None);
    assert_eq!(pls_entry("NumberOfEntries=2"), None);
    assert_eq!(pls_entry("Version=2"), None);
    assert_eq!(pls_entry("File1"), None);
    assert_eq!(pls_entry("file1=/x.mp3"), None);
    assert_eq!(pls_entry("File="), Some(""));
}

#[test]
fn entries_resolve_against_playlist_directory() {
    assert_eq!(resolve_entry("/music", "song.mp3"), "/music/song.mp3");
    assert_eq!(resolve_entry("/music/", "song.mp3"), "/music/song.mp3");
    assert_eq!(resolve_entry("/music", "/other/song.mp3"), "/other/song.mp3");
    assert_eq!(resolve_entry("", "song.mp3"), "song.mp3");
    assert_eq!(resolve_entry("/music", "sub/song.mp3"), "/music/sub/song.mp3");
}

#[test]
fn import_result_counts() {
    let mut r = ImportResult::new();
    r.record(true);
    r.record(false);
    r.record(false);
    assert_eq!(r, ImportResult { imported: 1, not_found: 2 });
}

#[test]
fn m3u_example_playlist() {
    let content = "#EXTM3U\n# A comment\n/tmp/lib/song.mp3\n/nonexistent/missing.mp3\n";
    let entries: Vec<&str> = content.lines().filter_map(m3u_entry).collect();
    assert_eq!(entries, vec!["/tmp/lib/song.mp3", "/nonexistent/missing.mp3"]);
}

#[test]
fn pls_example_playlist() {
    let content = "[playlist]\nFile1=/tmp/lib/track.flac\nTitle1=My Track\nFile2=/gone/nowhere.mp3\nNumberOfEntries=2\nVersion=2\n";
    let entries: Vec<&str> = content.lines().filter_map(pls_entry).collect();
    assert_eq!(entries, vec!["/tmp/lib/track.flac", "/gone/nowhere.mp3"]);
}

#[test]
fn replay_gain_number_text() {
    assert_eq!(MetadataReader::gain_number_text("+1.23 dB"), "+1.23");
    assert_eq!(MetadataReader::gain_number_text("-0.5 dB"), "-0.5");
    assert_eq!(MetadataReader::gain_number_text("3.0"), "3.0");
    assert_eq!(MetadataReader::gain_number_text("  -2.1 db "), "-2.1");
    assert_eq!(MetadataReader::gain_number_text("not a number"), "not a number");
    assert_eq!(MetadataReader::gain_number_text("dB"), "");
    assert_eq!(MetadataReader::gain_number_text("4 DB"), "4 DB");
}
