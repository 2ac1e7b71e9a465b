use rom_pipeline::config::{check_adapter_profile, Ps2Settings, ProfileConfig, SystemKind};
use rom_pipeline::error::PipelineError;
use rom_pipeline::library::{
    check_all_prunable, check_recorded_digest, check_recorded_size, publish_outcome, publish_step,
    Change, LibrarySystem, PruneObservation, PublishAction, PublishEnd, PublishObservation,
    PublishStep,
};
use rom_pipeline::service::{
    preserved_mismatch, ps2_resume_step, resumed_chd_log, resumed_preserved_log, ResumeAction,
    ResumeEnd, ResumeObservation, ResumeStep,
};
use rom_pipeline::state::{
    search_start, search_step, CompletionRecord, OutputFact, OutputSearch, SearchAction, SearchStage,
};

fn record() -> CompletionRecord {
    CompletionRecord {
        sha256: "ab".repeat(32),
        size: 100,
        modified_seconds: 7,
        output_name: "Game.chd".to_owned(),
        component_fingerprint: Some("fp".to_owned()),
    }
}

/// Feeds observations to the publication steps and returns the actions asked for.
fn run(system: LibrarySystem, observations: Vec<PublishObservation>) -> Vec<PublishAction> {
    let r = record();
    let mut step = PublishStep::Start;
    let mut actions = Vec::new();
    for seen in observations {
        let (next, action) = publish_step(system, step, &r, seen);
        step = next;
        actions.push(action);
    }
    actions
}

#[test]
fn publication_copies_through_a_verified_partial() {
    let actions = run(
        LibrarySystem::PlayStationPortable,
        vec![
            PublishObservation::LibraryExists(false),
            PublishObservation::StagingExists(true),
            PublishObservation::StagingVerified(Ok(())),
            PublishObservation::Prepared(Ok(())),
            PublishObservation::Copied(Ok(())),
            PublishObservation::PartialVerified(Ok(())),
            PublishObservation::TimeSet(Ok(())),
            PublishObservation::Renamed(Ok(())),
            PublishObservation::StagingRemoved(Ok(100)),
        ],
    );
    assert_eq!(
        actions,
        vec![
            PublishAction::CheckStaging { announce_skip: false },
            PublishAction::VerifyStaging,
            PublishAction::PreparePartial { create_parent: true },
            PublishAction::CopyToPartial,
            PublishAction::VerifyPartial,
            PublishAction::SetPartialTime,
            PublishAction::RenameIntoLibrary,
            PublishAction::RemoveStaging,
            PublishAction::Finish(PublishEnd::Published(100)),
        ]
    );
}

#[test]
fn failed_partial_check_removes_the_copy_except_for_3ds() {
    let failure = || PipelineError::Message("bad".to_owned());
    let obs = |e: PipelineError| {
        vec![
            PublishObservation::LibraryExists(false),
            PublishObservation::StagingExists(true),
            PublishObservation::StagingVerified(Ok(())),
            PublishObservation::Prepared(Ok(())),
            PublishObservation::Copied(Ok(())),
            PublishObservation::PartialVerified(Err(e)),
        ]
    };
    let gc = run(LibrarySystem::GameCube, obs(failure()));
    assert_eq!(
        gc.last().unwrap(),
        &PublishAction::Finish(PublishEnd::Failed { error: failure(), remove_partial: true })
    );
    let n3ds = run(LibrarySystem::Nintendo3ds, obs(failure()));
    assert_eq!(n3ds[2], PublishAction::PreparePartial { create_parent: false });
    assert_eq!(
        n3ds.last().unwrap(),
        &PublishAction::Finish(PublishEnd::Failed { error: failure(), remove_partial: false })
    );
    let n3ds_ok = run(
        LibrarySystem::Nintendo3ds,
        vec![
            PublishObservation::LibraryExists(false),
            PublishObservation::StagingExists(true),
            PublishObservation::StagingVerified(Ok(())),
            PublishObservation::Prepared(Ok(())),
            PublishObservation::Copied(Ok(())),
            PublishObservation::PartialVerified(Ok(())),
        ],
    );
    assert_eq!(n3ds_ok.last().unwrap(), &PublishAction::RenameIntoLibrary);
}

#[test]
fn existing_library_output_is_adopted() {
    let gc = run(
        LibrarySystem::GameCube,
        vec![
            PublishObservation::LibraryExists(true),
            PublishObservation::LibrarySize(100),
            PublishObservation::StagingExists(true),
            PublishObservation::StagingRemoved(Ok(100)),
        ],
    );
    assert_eq!(
        gc,
        vec![
            PublishAction::ReadLibrarySize,
            PublishAction::CheckStaging { announce_skip: true },
            PublishAction::RemoveStaging,
            PublishAction::Finish(PublishEnd::Adopted(100)),
        ]
    );
    let wrong = run(LibrarySystem::GameCube, vec![PublishObservation::LibraryExists(true), PublishObservation::LibrarySize(99)]);
    assert_eq!(wrong[1], PublishAction::Finish(PublishEnd::SizeMismatch));
    let psp = run(
        LibrarySystem::PlayStationPortable,
        vec![
            PublishObservation::LibraryExists(true),
            PublishObservation::LibraryVerified(Ok(())),
            PublishObservation::TimeSet(Ok(())),
            PublishObservation::StagingExists(false),
        ],
    );
    assert_eq!(
        psp,
        vec![
            PublishAction::VerifyLibrary { announce: true },
            PublishAction::SetLibraryTime,
            PublishAction::CheckStaging { announce_skip: false },
            PublishAction::Finish(PublishEnd::Unchanged),
        ]
    );
    let missing = run(LibrarySystem::Nintendo3ds, vec![PublishObservation::LibraryExists(false), PublishObservation::StagingExists(false)]);
    assert_eq!(missing[1], PublishAction::Finish(PublishEnd::StagingMissing));
    let odd = run(LibrarySystem::Nintendo3ds, vec![PublishObservation::Renamed(Ok(()))]);
    assert_eq!(odd[0], PublishAction::Finish(PublishEnd::OutOfOrder));
}

#[test]
fn publication_outcomes_and_logs() {
    assert_eq!(
        publish_outcome(LibrarySystem::PlayStationPortable, "/lib/a.chd", "/out/a.chd", "a.chd", PublishEnd::Published(5)),
        (
            Ok(Change::Applied { files_removed: 1, bytes_reclaimed: 5 }),
            Some("PUBLISH verified final library output and removed staging copy: a.chd".to_owned())
        )
    );
    assert_eq!(
        publish_outcome(LibrarySystem::GameCube, "/lib/a.rvz", "/out/a.rvz", "a.rvz", PublishEnd::Adopted(3)),
        (
            Ok(Change::Applied { files_removed: 1, bytes_reclaimed: 3 }),
            Some("PUBLISH skipped existing GameCube library RVZ and removed staging copy: a.rvz".to_owned())
        )
    );
    assert_eq!(
        publish_outcome(LibrarySystem::Nintendo3ds, "/l", "/o", "a.cia", PublishEnd::Adopted(3)).1,
        None
    );
    assert_eq!(
        publish_outcome(LibrarySystem::GameCube, "/lib/a.rvz", "/out/a.rvz", "a.rvz", PublishEnd::SizeMismatch).0,
        Err(PipelineError::Message("recorded GameCube RVZ size mismatch: /lib/a.rvz".to_owned()))
    );
    assert_eq!(
        publish_outcome(LibrarySystem::GameCube, "/lib/a.rvz", "/out/a.rvz", "a.rvz", PublishEnd::StagingMissing).0,
        Err(PipelineError::MissingPath("/out/a.rvz".to_owned()))
    );
    assert_eq!(
        publish_outcome(LibrarySystem::GameCube, "/l", "/o", "a", PublishEnd::Unchanged),
        (Ok(Change::Unchanged), None)
    );
}

#[test]
fn recorded_output_checks() {
    let r = record();
    assert!(check_recorded_size(LibrarySystem::GameCube, "/p", &r, 100).is_ok());
    assert_eq!(
        check_recorded_size(LibrarySystem::PlayStationPortable, "/p", &r, 1),
        Err(PipelineError::Message("recorded CHD size mismatch: /p".to_owned()))
    );
    assert_eq!(
        check_recorded_size(LibrarySystem::Nintendo3ds, "/p", &r, 1),
        Err(PipelineError::Message("recorded 3DS CIA mismatch: /p".to_owned()))
    );
    assert!(check_recorded_digest(LibrarySystem::GameCube, "/p", &r, &"ab".repeat(32)).is_ok());
    assert_eq!(
        check_recorded_digest(LibrarySystem::GameCube, "/p", &r, "00"),
        Err(PipelineError::Message("recorded GameCube RVZ hash mismatch: /p".to_owned()))
    );
}

#[test]
fn prune_waits_for_every_job() {
    let published = |id: &str| PruneObservation {
        job_id: id.to_owned(),
        record: Some(record()),
        fingerprint_ok: true,
        in_library: true,
        library: format!("/lib/{id}"),
    };
    assert!(check_all_prunable(LibrarySystem::PlayStationPortable, &vec![published("a"), published("b")]).is_ok());
    let mut unpublished = published("b");
    unpublished.in_library = false;
    let mut unmarked = published("c");
    unmarked.record = None;
    assert_eq!(
        check_all_prunable(LibrarySystem::PlayStationPortable, &vec![published("a"), unpublished, unmarked]),
        Err(PipelineError::Message("prune requires every PSP CHD in the final library; missing /lib/b".to_owned()))
    );
}

fn ps2(preserve: bool, round_trip: bool) -> Ps2Settings {
    Ps2Settings {
        manifest: "/m".to_owned(),
        chdman: "/chdman".to_owned(),
        minimum_savings_percent: 10,
        preserve_when_compression_is_not_worthwhile: preserve,
        verify_round_trip: round_trip,
    }
}

fn resume(settings: &Ps2Settings, observations: Vec<ResumeObservation>) -> Vec<ResumeAction> {
    let mut step = ResumeStep::Start;
    let mut actions = Vec::new();
    for seen in observations {
        let (next, action) = ps2_resume_step(settings, 1000, step, seen);
        step = next;
        actions.push(action);
    }
    actions
}

#[test]
fn ps2_resume_prefers_a_matching_preserved_copy() {
    let s = ps2(true, true);
    assert_eq!(
        resume(&s, vec![
            ResumeObservation::PreservedExists(true),
            ResumeObservation::PreservedSize(1000),
            ResumeObservation::PreservedDigestsEqual(true),
        ]),
        vec![ResumeAction::ReadPreservedSize, ResumeAction::ComparePreserved, ResumeAction::Finish(ResumeEnd::CompletePreserved)]
    );
    assert_eq!(
        resume(&s, vec![ResumeObservation::PreservedExists(true), ResumeObservation::PreservedSize(999)])[1],
        ResumeAction::Finish(ResumeEnd::PreservedMismatch)
    );
    assert_eq!(
        preserved_mismatch("/done/a.iso"),
        PipelineError::Message("existing preserved PS2 output does not match its source: /done/a.iso".to_owned())
    );
    assert_eq!(resumed_preserved_log("a.iso"), "RESUMED verified PS2 preserved output=a.iso");
}

#[test]
fn ps2_resume_keeps_or_discards_a_chd() {
    let keep = resume(&ps2(true, true), vec![
        ResumeObservation::PreservedExists(false),
        ResumeObservation::ChdExists(true),
        ResumeObservation::ChdVerified(Ok(())),
        ResumeObservation::RoundTrip(Ok(())),
        ResumeObservation::ChdSize(500),
    ]);
    assert_eq!(
        keep,
        vec![
            ResumeAction::CheckChd,
            ResumeAction::VerifyChd,
            ResumeAction::CheckRoundTrip,
            ResumeAction::ReadChdSize,
            ResumeAction::Finish(ResumeEnd::CompleteChd { savings: 50 }),
        ]
    );
    let discard = resume(&ps2(true, false), vec![
        ResumeObservation::PreservedExists(false),
        ResumeObservation::ChdExists(true),
        ResumeObservation::ChdVerified(Ok(())),
        ResumeObservation::ChdSize(950),
        ResumeObservation::Discarded(Ok(())),
    ]);
    assert_eq!(discard[2], ResumeAction::ReadChdSize);
    assert_eq!(discard[3], ResumeAction::DiscardChd);
    assert_eq!(discard[4], ResumeAction::Finish(ResumeEnd::Fresh));
    let small_kept = resume(&ps2(false, false), vec![
        ResumeObservation::PreservedExists(false),
        ResumeObservation::ChdExists(true),
        ResumeObservation::ChdVerified(Ok(())),
        ResumeObservation::ChdSize(950),
    ]);
    assert_eq!(small_kept[3], ResumeAction::Finish(ResumeEnd::CompleteChd { savings: 5 }));
    let fresh = resume(&ps2(true, true), vec![ResumeObservation::PreservedExists(false), ResumeObservation::ChdExists(false)]);
    assert_eq!(fresh[1], ResumeAction::Finish(ResumeEnd::Fresh));
    assert_eq!(resumed_chd_log(50, "a.chd"), "RESUMED verified PS2 CHD savings=50 output=a.chd");
}

fn profile(system: SystemKind) -> ProfileConfig {
    ProfileConfig {
        id: "gc".to_owned(),
        name: "GC".to_owned(),
        system,
        source_format: "iso".to_owned(),
        source_dir: "/src".to_owned(),
        done_dir: "/done".to_owned(),
        work_dir: "/work".to_owned(),
        state_dir: "/state".to_owned(),
        log_dir: "/logs".to_owned(),
        output_dir: "/out".to_owned(),
        library_dir: None,
        output_format: "rvz".to_owned(),
        batch_limit: 1,
        wiiu: None,
        gamecube: None,
        nintendo_3ds: None,
        psp: Some(rom_pipeline::config::PspSettings {
            chdman: "/c".to_owned(),
            codec: "cd".to_owned(),
            hunk_size: 2048,
            verify_round_trip: true,
        }),
        ps2: None,
    }
}

#[test]
fn adapters_accept_only_their_system() {
    let p = profile(SystemKind::PlayStationPortable);
    assert!(check_adapter_profile(&p, SystemKind::PlayStationPortable).is_ok());
    assert_eq!(
        check_adapter_profile(&p, SystemKind::WiiU),
        Err(PipelineError::InvalidConfig("profile gc is not Wii U".to_owned()))
    );
    let mut bad = p.clone();
    bad.batch_limit = 0;
    assert_eq!(
        check_adapter_profile(&bad, SystemKind::PlayStationPortable),
        Err(PipelineError::InvalidConfig("batch limit must exceed zero".to_owned()))
    );
}

#[test]
fn output_search_tries_each_root() {
    let r = record();
    let (at, action) = search_start(2);
    assert_eq!(action, SearchAction::Stat(0));
    let (at, action) = search_step(&r, true, 2, at, OutputFact::Missing);
    assert_eq!(action, SearchAction::Stat(1));
    let (at, action) = search_step(&r, true, 2, at, OutputFact::Size(100));
    assert_eq!(action, SearchAction::ReadModified);
    let (at, action) = search_step(&r, true, 2, at, OutputFact::Modified(7));
    assert_eq!(action, SearchAction::HashOutput);
    let (_, action) = search_step(&r, true, 2, at, OutputFact::Digest("ab".repeat(32)));
    assert_eq!(action, SearchAction::Finish(true));
    let at = OutputSearch { root: 1, stage: SearchStage::Modified };
    assert_eq!(search_step(&r, false, 2, at, OutputFact::Modified(8)).1, SearchAction::Finish(false));
    assert_eq!(search_step(&r, false, 2, at, OutputFact::Modified(7)).1, SearchAction::Finish(true));
    assert_eq!(search_start(0).1, SearchAction::Finish(false));
}

#[test]
fn marker_line_round_trip() {
    let r = record();
    assert_eq!(CompletionRecord::parse(&r.encode()).unwrap(), r);
}
