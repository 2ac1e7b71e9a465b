use rom_pipeline::domain::BatchPolicy;
use rom_pipeline::migration::{
    batch_complete, cia_name, count_migration, is_cci_name, migrated_message, migration_activity,
    migration_id, migration_log_name, migration_order, takes_next_source, MigrationResult,
    MigrationSummary,
};

#[test]
fn migration_id_is_the_upper_hex_of_the_first_eight_digest_bytes() {
    assert_eq!(migration_id("Game"), "5C412A262086B970");
    assert_eq!(migration_id("0004000000055D00"), "64A069D78E0E7A13");
    assert_eq!(migration_id("Game").len(), 16);
}

#[test]
fn only_cci_and_3ds_files_are_migrated_in_name_order() {
    let names = vec![
        "b.3DS".to_owned(),
        "a.cci".to_owned(),
        "notes.txt".to_owned(),
        "c.cia".to_owned(),
        ".cci".to_owned(),
        "a.cci".to_owned(),
    ];
    let order: Vec<String> = migration_order(&names)
        .into_iter()
        .map(|chars| chars.into_iter().collect())
        .collect();
    assert_eq!(order, vec!["a.cci".to_owned(), "b.3DS".to_owned()]);
    assert!(is_cci_name(&"Game.CCI".to_owned()));
    assert!(!is_cci_name(&".3ds".to_owned()));
}

#[test]
fn migration_stops_at_the_limit_or_a_stop_request() {
    let limit = BatchPolicy::new(2).expect("limit");
    let mut summary = MigrationSummary::new();
    assert!(takes_next_source(false, &summary, limit));
    assert!(!takes_next_source(true, &summary, limit));
    assert_eq!(count_migration(&mut summary, MigrationResult::Converted), (false, None));
    assert_eq!(count_migration(&mut summary, MigrationResult::AlreadyComplete), (false, None));
    assert!(takes_next_source(false, &summary, limit));
    assert_eq!(count_migration(&mut summary, MigrationResult::Converted), (false, None));
    assert!(!takes_next_source(false, &summary, limit));
    assert_eq!(
        summary,
        MigrationSummary {
            converted: 2,
            already_complete: 1,
            failed: 0
        }
    );
}

#[test]
fn migration_failures_are_counted_and_described() {
    let mut summary = MigrationSummary::new();
    let (stop, failure) =
        count_migration(&mut summary, MigrationResult::SourceFailed("bad magic".to_owned()));
    assert!(!stop);
    assert_eq!(failure.as_deref(), Some("CCI migration source failed: bad magic"));
    let (_, failure) =
        count_migration(&mut summary, MigrationResult::ExistingInvalid("short".to_owned()));
    assert_eq!(failure.as_deref(), Some("existing CIA failed: short"));
    let (_, failure) = count_migration(&mut summary, MigrationResult::Failed("tool".to_owned()));
    assert_eq!(failure.as_deref(), Some("CCI migration failed: tool"));
    assert_eq!(count_migration(&mut summary, MigrationResult::Interrupted), (true, None));
    assert_eq!(summary.failed, 3);
    assert_eq!(
        batch_complete(&summary),
        "migration batch complete converted=0 existing=0 failed=3"
    );
}

#[test]
fn migration_texts() {
    let stem: Vec<char> = "Game".chars().collect();
    assert_eq!(cia_name(&stem), "Game.cia");
    assert_eq!(migration_log_name("ABCD"), "migration-ABCD.log");
    assert_eq!(
        migration_activity("ABCD", &stem),
        "migration=ABCD step=create-cia output=Game.cia"
    );
    assert_eq!(
        migrated_message("Game.cci", &stem),
        "MIGRATED preserved CCI and published CIA: Game.cci -> Game.cia"
    );
}
