use rustymixer::scanner::{audio_paths, classify_file, is_audio_file, is_missing, FileChange, ScanPhase, ScanRun, ScanTally};

#[test]
fn is_audio_file_accepts_known_extensions() {
    assert!(is_audio_file("track.mp3"));
    assert!(is_audio_file("track.FLAC"));
    assert!(is_audio_file("song.wav"));
    assert!(is_audio_file("song.m4a"));
    assert!(is_audio_file("song.ogg"));
    assert!(is_audio_file("deep/path/song.aiff"));
}

#[test]
fn is_audio_file_rejects_non_audio() {
    assert!(!is_audio_file("readme.txt"));
    assert!(!is_audio_file("cover.jpg"));
    assert!(!is_audio_file("no_ext"));
}

#[test]
fn is_audio_file_follows_path_rules() {
    // All nine extensions.
    for ext in ["mp3", "flac", "ogg", "opus", "m4a", "aac", "wav", "aiff", "wv"] {
        assert!(is_audio_file(&format!("/music/a.{ext}")));
    }
    // Mixed case.
    assert!(is_audio_file("Track.Mp3"));
    assert!(is_audio_file("x.WV"));
    // A leading dot is no extension.
    assert!(!is_audio_file(".mp3"));
    assert!(!is_audio_file("dir/.flac"));
    // Only the last extension counts.
    assert!(is_audio_file("archive.tar.mp3"));
    assert!(!is_audio_file("song.mp3.bak"));
    // The extension of the file name, not of a directory.
    assert!(!is_audio_file("album.flac/notes"));
    // Trailing separators and `.` components are ignored; `..` has no name.
    assert!(is_audio_file("song.mp3/"));
    assert!(is_audio_file("song.mp3/."));
    assert!(!is_audio_file("song.mp3/.."));
    assert!(!is_audio_file(""));
    assert!(!is_audio_file("/"));
    assert!(!is_audio_file("."));
    // An empty extension, or a longer one.
    assert!(!is_audio_file("song."));
    assert!(!is_audio_file("song.mp33"));
    assert!(!is_audio_file("song.mp"));
    // Non-ASCII names.
    assert!(is_audio_file("чайка.mp3"));
    assert!(!is_audio_file("song.ｍｐ3"));
}

#[test]
fn classify_new_unchanged_modified() {
    assert_eq!(classify_file(None, Some(100)), FileChange::New);
    assert_eq!(classify_file(None, None), FileChange::New);
    assert_eq!(classify_file(Some(Some(100)), Some(100)), FileChange::Unchanged);
    assert_eq!(classify_file(Some(None), None), FileChange::Unchanged);
    assert_eq!(classify_file(Some(Some(100)), Some(200)), FileChange::Modified);
    assert_eq!(classify_file(Some(None), Some(200)), FileChange::Modified);
    assert_eq!(classify_file(Some(Some(100)), None), FileChange::Modified);
}

#[test]
fn missing_only_when_unseen_and_absent() {
    assert!(is_missing(false, false));
    assert!(!is_missing(true, false));
    assert!(!is_missing(false, true));
    assert!(!is_missing(true, true));
}

#[test]
fn tally_counts_each_file_once() {
    let mut t = ScanTally::new();
    t.record_file(FileChange::New, true);
    t.record_file(FileChange::New, false);
    t.record_file(FileChange::Modified, true);
    t.record_file(FileChange::Modified, false);
    t.record_file(FileChange::Unchanged, true);
    t.record_file(FileChange::Unchanged, false);
    t.record_error();
    t.record_removed();
    assert_eq!(t, ScanTally { added: 1, updated: 1, removed: 1, errors: 3 });
}

#[test]
fn tally_merge_adds_counts() {
    let mut a = ScanTally { added: 1, updated: 2, removed: 3, errors: 4 };
    let b = ScanTally { added: 10, updated: 20, removed: 30, errors: 40 };
    a.merge(&b);
    assert_eq!(a, ScanTally { added: 11, updated: 22, removed: 33, errors: 44 });
}

#[test]
fn rescan_of_unchanged_files_adds_nothing() {
    // First scan: two new files.
    let mut first = ScanTally::new();
    for _ in 0..2 {
        first.record_file(classify_file(None, Some(5)), true);
    }
    assert_eq!(first.added, 2);
    // Second scan: the same files, same modification times.
    let mut second = ScanTally::new();
    for _ in 0..2 {
        second.record_file(classify_file(Some(Some(5)), Some(5)), true);
    }
    assert_eq!(second, ScanTally::new());
}

#[test]
fn scan_run_reports_phases_in_order() {
    let (mut run, first) = ScanRun::start();
    assert_eq!(first.phase, ScanPhase::Discovering);
    assert_eq!((first.current, first.total), (0, 0));
    assert!(first.current_file.is_none());
    assert_eq!(run.phase(), ScanPhase::Discovering);

    run.discovered(3);
    assert_eq!(run.phase(), ScanPhase::Reading);

    // First file: new, metadata read.
    let p = run.next_file(Some("a.mp3".to_string())).unwrap();
    assert_eq!(p.phase, ScanPhase::Reading);
    assert_eq!((p.current, p.total), (1, 3));
    assert_eq!(p.current_file.as_deref(), Some("a.mp3"));
    run.file_handled(FileChange::New, true);

    // Second file: no relative path; counted as an error, not reported.
    assert!(run.next_file(None).is_none());

    // Third file: cannot be examined on disk.
    let p = run.next_file(Some("c.flac".to_string())).unwrap();
    assert_eq!((p.current, p.total), (3, 3));
    run.file_unreadable();

    run.verifying(2);
    assert_eq!(run.phase(), ScanPhase::Verifying);
    let (p, missing) = run.next_location("a.mp3".to_string(), true, true);
    assert_eq!(p.phase, ScanPhase::Verifying);
    assert_eq!((p.current, p.total), (1, 2));
    assert!(!missing);
    let (p, missing) = run.next_location("gone.wav".to_string(), false, false);
    assert_eq!((p.current, p.total), (2, 2));
    assert_eq!(p.current_file.as_deref(), Some("gone.wav"));
    assert!(missing);

    let t = run.finish();
    assert_eq!(t, ScanTally { added: 1, updated: 0, removed: 1, errors: 2 });
}

#[test]
fn scan_run_counts_updates_and_skips_unchanged() {
    let (mut run, _) = ScanRun::start();
    run.discovered(3);
    run.next_file(Some("x.ogg".to_string())).unwrap();
    run.file_handled(FileChange::Unchanged, true);
    run.next_file(Some("y.ogg".to_string())).unwrap();
    run.file_handled(FileChange::Modified, true);
    run.next_file(Some("z.ogg".to_string())).unwrap();
    run.file_handled(FileChange::Modified, false);
    run.verifying(1);
    // A location not seen in the scan but still on disk is not missing.
    let (_, missing) = run.next_location("w.ogg".to_string(), false, true);
    assert!(!missing);
    assert_eq!(run.finish(), ScanTally { added: 0, updated: 1, removed: 0, errors: 1 });
}

#[test]
fn scan_run_of_an_empty_directory() {
    let (mut run, _) = ScanRun::start();
    run.discovered(0);
    run.verifying(0);
    assert_eq!(run.finish(), ScanTally { added: 0, updated: 0, removed: 0, errors: 0 });
}

#[test]
fn audio_paths_keep_audio_files_in_order() {
    let found: Vec<String> = ["/m/b.mp3", "/m/cover.jpg", "/m/a.FLAC", "/m/notes", "/m/x.wv"]
        .iter()
        .map(|s| s.to_string())
        .collect();
    assert_eq!(audio_paths(&found), vec!["/m/b.mp3".to_string(), "/m/a.FLAC".to_string(), "/m/x.wv".to_string()]);
    assert!(audio_paths(&Vec::new()).is_empty());
}

#[test]
fn rescan_without_changes_counts_nothing() {
    let (mut run, _) = ScanRun::start();
    run.discovered(2);
    for (name, stored) in [("a.mp3", Some(10)), ("b.mp3", None)] {
        run.next_file(Some(name.to_string())).unwrap();
        run.file_handled(classify_file(Some(stored), stored), true);
    }
    run.verifying(2);
    run.next_location("a.mp3".to_string(), true, true);
    run.next_location("b.mp3".to_string(), true, true);
    assert_eq!(run.finish(), ScanTally { added: 0, updated: 0, removed: 0, errors: 0 });
}
