use rustymixer::library::{
    move_item, CueType, MigrationManager, MigrationStep, SortColumn, SortOrder, TrackDao,
    CURRENT_SCHEMA_VERSION,
};

#[test]
fn cue_type_codes_round_trip() {
    for (code, t) in [
        (0, CueType::HotCue),
        (1, CueType::Intro),
        (2, CueType::Outro),
        (3, CueType::Loop),
    ] {
        assert_eq!(CueType::from_i32(code), Some(t));
        assert_eq!(t.code(), code);
    }
    assert_eq!(CueType::from_i32(4), None);
    assert_eq!(CueType::from_i32(-1), None);
}

#[test]
fn sort_column_and_order_sql() {
    assert_eq!(SortColumn::Title.as_sql(), "title");
    assert_eq!(SortColumn::Artist.as_sql(), "artist");
    assert_eq!(SortColumn::Album.as_sql(), "album");
    assert_eq!(SortColumn::Duration.as_sql(), "duration_secs");
    assert_eq!(SortColumn::Bpm.as_sql(), "bpm");
    assert_eq!(SortColumn::Key.as_sql(), "key");
    assert_eq!(SortColumn::Rating.as_sql(), "rating");
    assert_eq!(SortColumn::AddedAt.as_sql(), "added_at");
    assert_eq!(SortOrder::Asc.as_sql(), "ASC");
    assert_eq!(SortOrder::Desc.as_sql(), "DESC");
}

#[test]
fn listing_sql_orders_by_column() {
    let sql = TrackDao::listing_sql(SortColumn::Bpm, SortOrder::Desc);
    assert!(sql.starts_with("SELECT id, location_id, title"));
    assert!(sql.contains("FROM tracks"));
    assert!(sql.contains("ORDER BY bpm DESC"));
    assert!(sql.ends_with("LIMIT ?1 OFFSET ?2"));
}

#[test]
fn search_pattern_wraps_query() {
    assert_eq!(TrackDao::search_pattern("Alpha"), "%Alpha%");
    assert_eq!(TrackDao::search_pattern(""), "%%");
}

#[test]
fn migration_steps() {
    assert_eq!(MigrationManager::step(0), MigrationStep::CreateSchema);
    assert_eq!(MigrationManager::step(CURRENT_SCHEMA_VERSION), MigrationStep::UpToDate);
    assert_eq!(MigrationManager::step(CURRENT_SCHEMA_VERSION + 1), MigrationStep::UpToDate);
}

#[test]
fn migration_is_idempotent_by_steps() {
    // A fresh database gets the schema, after which nothing is left to do.
    assert_eq!(MigrationManager::step(0), MigrationStep::CreateSchema);
    assert_eq!(MigrationManager::step(CURRENT_SCHEMA_VERSION), MigrationStep::UpToDate);
}

#[test]
fn schema_version_setting() {
    assert_eq!(MigrationManager::version_from_setting(None), Ok(0));
    assert_eq!(MigrationManager::version_from_setting(Some("1")), Ok(1));
    assert_eq!(MigrationManager::version_from_setting(Some("+42")), Ok(42));
    assert_eq!(MigrationManager::version_from_setting(Some("4294967295")), Ok(u32::MAX));
    for bad in ["", "abc", "-1", " 1", "4294967296", "1.0"] {
        let e = MigrationManager::version_from_setting(Some(bad)).unwrap_err();
        assert!(e.starts_with("bad schema_version: "), "{bad:?}: {e}");
    }
}

#[test]
fn move_item_reorders_playlist() {
    let mut v = vec![10, 20, 30];
    // [A,B,C] -> move first to last -> [B,C,A]
    move_item(&mut v, 0, 2);
    assert_eq!(v, vec![20, 30, 10]);
    // Move it back: [A,B,C]
    move_item(&mut v, 2, 0);
    assert_eq!(v, vec![10, 20, 30]);
    // No-op move.
    move_item(&mut v, 1, 1);
    assert_eq!(v, vec![10, 20, 30]);
    move_item(&mut v, 1, 2);
    assert_eq!(v, vec![10, 30, 20]);
}
