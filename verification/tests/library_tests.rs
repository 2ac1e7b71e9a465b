use rom_pipeline::disc::{
    check_mode2_sector, classify, is_logical_candidate, is_pvd_magic, is_raw_candidate,
    unsupported_layout, DiscFormat,
};
use rom_pipeline::domain::BatchPolicy;
use rom_pipeline::error::PipelineError;
use rom_pipeline::library::{
    action_current, action_log, add_pruned_bytes, check_prunable, count_job, group_log,
    library_path, prune_change, step_activity, takes_next_job, Change, JobResult, LibrarySummary,
    LibrarySystem,
};
use rom_pipeline::state::CompletionRecord;

fn record() -> CompletionRecord {
    CompletionRecord {
        sha256: "ab".repeat(32),
        size: 10,
        modified_seconds: 20,
        output_name: "game.chd".to_string(),
        component_fingerprint: Some("fp".to_string()),
    }
}

#[test]
fn library_counts_each_result() {
    let mut s = LibrarySummary::default();
    let (stop, note) = count_job(
        &mut s,
        JobResult::Done(Change::Applied { files_removed: 2, bytes_reclaimed: 300 }),
        "prune",
    );
    assert!(!stop);
    assert_eq!(note, None);
    let (_, note) = count_job(&mut s, JobResult::FingerprintChanged, "prune");
    assert_eq!(note.as_deref(), Some("completion component fingerprint changed"));
    let (_, note) = count_job(&mut s, JobResult::Failed("disk full".to_string()), "publish");
    assert_eq!(note.as_deref(), Some("publish failed: disk full"));
    let (_, note) = count_job(&mut s, JobResult::NoRecord, "prune");
    assert_eq!(note, None);
    let (_, note) = count_job(&mut s, JobResult::Done(Change::Unchanged), "prune");
    assert_eq!(note, None);
    let (stop, _) = count_job(&mut s, JobResult::Interrupted, "prune");
    assert!(stop);
    assert_eq!(
        s,
        LibrarySummary { completed_jobs: 1, failed_jobs: 2, files_removed: 2, bytes_reclaimed: 300 }
    );
}

#[test]
fn library_limit_stops_taking_jobs() {
    let limit = BatchPolicy::new(2).unwrap();
    let mut s = LibrarySummary::default();
    assert!(takes_next_job(false, &s, limit));
    assert!(!takes_next_job(true, &s, limit));
    s.completed_jobs = 2;
    assert!(!takes_next_job(false, &s, limit));
}

#[test]
fn library_action_texts() {
    let s = LibrarySummary { completed_jobs: 3, failed_jobs: 1, files_removed: 4, bytes_reclaimed: 5 };
    assert_eq!(
        action_current(LibrarySystem::PlayStationPortable, "prune", true, &s),
        "prune stopped cleanly completed=3 failed=1 files_removed=4 bytes_reclaimed=5"
    );
    assert_eq!(
        action_current(LibrarySystem::Nintendo3ds, "prune", true, &s),
        "prune batch complete completed=3 failed=1 files_removed=4 bytes_reclaimed=5"
    );
    assert_eq!(action_log(LibrarySystem::Nintendo3ds, "prune", false, &s), None);
    assert_eq!(
        action_log(LibrarySystem::GameCube, "publish", false, &s).unwrap(),
        "PUBLISH GameCube COMPLETE completed=3 failed=1 files_removed=4 bytes_reclaimed=5"
    );
    assert_eq!(
        action_log(LibrarySystem::PlayStationPortable, "prune", true, &s).unwrap(),
        "PRUNE STOPPED completed=3 failed=1 files_removed=4 bytes_reclaimed=5"
    );
    assert_eq!(step_activity("j1", "publish", "a.chd"), "group=j1 step=publish output=a.chd");
    assert_eq!(group_log(&"/var/log/rp".to_string(), "j1"), "/var/log/rp/groups/j1.log");
}

#[test]
fn library_path_requires_directory() {
    assert_eq!(
        library_path(LibrarySystem::GameCube, &Some("/lib/gc".to_string()), "g.rvz").unwrap(),
        "/lib/gc/g.rvz"
    );
    assert_eq!(
        library_path(LibrarySystem::Nintendo3ds, &None, "g.cia"),
        Err(PipelineError::InvalidConfig("3DS library_dir is required".to_string()))
    );
}

fn prune_message(r: Result<(), PipelineError>) -> String {
    match r {
        Err(PipelineError::Message(m)) => m,
        other => panic!("unexpected result {other:?}"),
    }
}

#[test]
fn prunable_checks_in_order() {
    let some = Some(record());
    assert_eq!(
        prune_message(check_prunable(LibrarySystem::PlayStationPortable, "j", &None, true, true, "/l/a")),
        "prune requires all PSP jobs to be complete; missing marker for j"
    );
    assert_eq!(
        prune_message(check_prunable(LibrarySystem::Nintendo3ds, "j", &None, true, true, "/l/a")),
        "prune requires all 3DS jobs complete; missing j"
    );
    assert_eq!(
        prune_message(check_prunable(LibrarySystem::GameCube, "j", &some, false, true, "/l/a")),
        "prune requires a current completion fingerprint for j"
    );
    assert_eq!(
        prune_message(check_prunable(LibrarySystem::Nintendo3ds, "j", &some, false, true, "/l/a")),
        "prune requires every verified 3DS CIA in the final library; missing /l/a"
    );
    assert_eq!(
        prune_message(check_prunable(LibrarySystem::GameCube, "j", &some, true, false, "/l/a")),
        "prune requires every GameCube RVZ in the final library; missing /l/a"
    );
    assert!(check_prunable(LibrarySystem::PlayStationPortable, "j", &some, true, true, "/l/a").is_ok());
}

#[test]
fn pruned_bytes_and_change() {
    assert_eq!(add_pruned_bytes(5, 7), Ok(12));
    assert_eq!(
        add_pruned_bytes(u64::MAX, 1),
        Err(PipelineError::Message("pruned byte count overflow".to_string()))
    );
    assert_eq!(prune_change(0, 9), Change::Unchanged);
    assert_eq!(prune_change(2, 9), Change::Applied { files_removed: 2, bytes_reclaimed: 9 });
}

#[test]
fn disc_layout_classification() {
    assert!(is_raw_candidate(2352 * 10));
    assert!(!is_raw_candidate(2048 * 10));
    assert!(is_logical_candidate(2048 * 3));
    assert_eq!(classify(2352 * 2048, true, true), Some(DiscFormat::CdMode2Raw));
    assert_eq!(classify(2048 * 7, true, true), Some(DiscFormat::DvdLogical));
    assert_eq!(classify(2048 * 7, true, false), None);
    assert_eq!(DiscFormat::CdMode2Raw.as_str(), "cd-mode2-2352");
    assert_eq!(DiscFormat::DvdLogical.as_str(), "dvd-logical-2048");
    assert!(is_pvd_magic(b"CD001"));
    assert!(!is_pvd_magic(b"CD002"));
    assert_eq!(
        unsupported_layout("/src/a.iso"),
        PipelineError::Message("unsupported or ambiguous PS2 disc layout: /src/a.iso".to_string())
    );
}

#[test]
fn mode2_sector_check() {
    let mut sector = vec![0u8; 2352];
    for b in &mut sector[1..11] {
        *b = 0xff;
    }
    sector[15] = 2;
    assert!(check_mode2_sector(&sector, 0).is_ok());
    sector[15] = 1;
    assert_eq!(
        check_mode2_sector(&sector, 42),
        Err(PipelineError::Message(
            "raw CD contains a non-Mode-2 sector at index 42; a trusted cue is required".to_string()
        ))
    );
}
