use rom_pipeline::config::{ProfileConfig, SystemKind};
use rom_pipeline::domain::JobOutcome;
use rom_pipeline::error::PipelineError;
use rom_pipeline::preflight::{vita_config, vita_device_root};
use rom_pipeline::vita::{is_vita_archive, ArchiveEntry, ArchiveLayout, VitaInventory};
use rom_pipeline::vita_deploy::{
    check_deployed_file, check_vita_zip, deploy_outcome, deploy_step, installed_after_check,
    roots_present, Crc32Stream, DeployAction, DeployEnd, DeployObservation, DeployStep,
};

fn entry(path: &str, size: u64, crc32: u32) -> ArchiveEntry {
    ArchiveEntry { path: path.to_owned(), size, crc32 }
}

fn layout(has_patch: bool, unpacked_bytes: u64) -> ArchiveLayout {
    let mut entries = vec![entry("app/PCSE00001/eboot.bin", 10, 1)];
    if has_patch {
        entries.push(entry("patch/PCSE00001/eboot.bin", 5, 2));
    }
    ArchiveLayout { title_id: "PCSE00001".to_owned(), entries, has_patch, unpacked_bytes }
}

fn walk(layout: &ArchiveLayout, observations: Vec<DeployObservation>) -> Vec<DeployAction> {
    let mut step = DeployStep::Testing;
    let mut actions = Vec::new();
    for seen in observations {
        let (next, action) = deploy_step(layout, step, seen);
        step = next;
        actions.push(action);
    }
    actions
}

// The configuration names no Vita system; the Vita checks read only the formats and the
// card folder, so any system will do here.
fn vita_profile(source_format: &str, library_dir: Option<&str>) -> ProfileConfig {
    ProfileConfig {
        id: "vita".to_owned(),
        name: "Vita".to_owned(),
        system: SystemKind::PlayStationPortable,
        source_format: source_format.to_owned(),
        source_dir: "/source".to_owned(),
        done_dir: "/source/done".to_owned(),
        work_dir: "/work".to_owned(),
        state_dir: "/state".to_owned(),
        log_dir: "/logs".to_owned(),
        output_dir: "/output".to_owned(),
        library_dir: library_dir.map(str::to_owned),
        output_format: "Native-Vita-Tree".to_owned(),
        batch_limit: 1,
        wiiu: None,
        gamecube: None,
        nintendo_3ds: None,
        psp: None,
        ps2: None,
    }
}

#[test]
fn inventories_unique_titles_and_supports_exact_selection() {
    let entries = vec![
        ("Second [PCSE00002] [USA] [NoNpDRM].zip".to_owned(), 3u64),
        ("First [PCSA00001] [USA] [NoNpDRM].zip".to_owned(), 3u64),
        ("metadata.xml".to_owned(), 7u64),
    ];
    let inventory = VitaInventory::from_entries(entries.clone(), None).expect("inventory");
    assert_eq!(inventory.jobs.len(), 2);
    assert_eq!(inventory.jobs[0].id, "VITA-PCSA00001");
    let selected =
        VitaInventory::from_entries(entries, Some("vita-pcse00002")).expect("selected inventory");
    assert_eq!(selected.jobs.len(), 1);
    assert_eq!(selected.jobs[0].display_name, "Second");
}

#[test]
fn only_zip_files_are_vita_archives() {
    assert!(is_vita_archive("Game [PCSE00001].zip", true));
    assert!(is_vita_archive("Game [PCSE00001].ZIP", true));
    assert!(!is_vita_archive("Game [PCSE00001].zip", false));
    assert!(!is_vita_archive("metadata.xml", true));
    assert!(!is_vita_archive(".zip", true));
    assert!(!is_vita_archive("zip", true));
    let entries = vec![("Upper [PCSE00003].ZIP".to_owned(), 4u64), ("notes.txt".to_owned(), 1u64)];
    let inventory = VitaInventory::from_entries(entries, None).expect("inventory");
    assert_eq!(inventory.jobs.len(), 1);
    assert_eq!(inventory.jobs[0].id, "VITA-PCSE00003");
    assert_eq!(inventory.jobs[0].display_name, "Upper");
}

#[test]
fn crc32_of_fed_bytes() {
    let mut whole = Crc32Stream::new();
    whole.feed(b"123456789");
    assert_eq!(whole.fed(), 9);
    assert_eq!(whole.finish(), 0xCBF4_3926);

    let mut pieces = Crc32Stream::new();
    pieces.feed(b"1234");
    pieces.feed(b"");
    pieces.feed(b"56789");
    assert_eq!(pieces.fed(), 9);
    assert_eq!(pieces.finish(), 0xCBF4_3926);

    assert_eq!(Crc32Stream::new().finish(), 0);
}

#[test]
fn deployed_files_are_checked_against_their_entries() {
    let e = entry("app/PCSE00001/eboot.bin", 10, 0xABCD);
    let shown = "/ux0/app/PCSE00001/eboot.bin";
    assert_eq!(check_deployed_file(&e, shown, true, 10, None), Ok(()));
    assert_eq!(check_deployed_file(&e, shown, true, 10, Some(0xABCD)), Ok(()));
    assert_eq!(
        check_deployed_file(&e, shown, true, 9, Some(0xABCD)),
        Err(PipelineError::Message(format!("deployed Vita file mismatch: {shown}")))
    );
    assert_eq!(
        check_deployed_file(&e, shown, false, 10, None),
        Err(PipelineError::Message(format!("deployed Vita file mismatch: {shown}")))
    );
    assert_eq!(
        check_deployed_file(&e, shown, true, 10, Some(0xABCE)),
        Err(PipelineError::Message(format!("deployed Vita CRC mismatch: {shown}")))
    );
}

#[test]
fn vita_zip_must_keep_its_size() {
    assert_eq!(check_vita_zip("/source/a.zip", 5, true, 5), Ok(()));
    assert_eq!(
        check_vita_zip("/source/a.zip", 5, true, 6),
        Err(PipelineError::Message("Vita ZIP size mismatch: /source/a.zip".to_owned()))
    );
    assert_eq!(
        check_vita_zip("/source/a.zip", 5, false, 5),
        Err(PipelineError::Message("Vita ZIP size mismatch: /source/a.zip".to_owned()))
    );
}

#[test]
fn fresh_deployment_checks_staged_files_before_publishing() {
    let l = layout(true, 100);
    let actions = walk(
        &l,
        vec![
            DeployObservation::Tested(Ok(())),
            DeployObservation::StopRequested(false),
            DeployObservation::Space(Ok((1000, 50))),
            DeployObservation::Roots { app_dir: false, patch_dir: false, app_exists: false, patch_exists: false },
            DeployObservation::StagingPrepared(Ok(())),
            DeployObservation::Extracted(Ok(())),
            DeployObservation::StopRequested(false),
            DeployObservation::StagedVerified(Ok(())),
            DeployObservation::RootsPublished(Ok(())),
            DeployObservation::Completed(Ok(())),
        ],
    );
    assert_eq!(
        actions,
        vec![
            DeployAction::CheckStop,
            DeployAction::ReadSpace,
            DeployAction::CheckRoots,
            DeployAction::PrepareStaging,
            DeployAction::Extract,
            DeployAction::CheckStop,
            DeployAction::VerifyStaged,
            DeployAction::PublishRoots,
            DeployAction::Complete { remove_staging: true },
            DeployAction::Finish(DeployEnd::Completed),
        ]
    );
}

#[test]
fn existing_title_is_adopted_only_after_its_files_check_out() {
    let l = layout(false, 10);
    let prefix = || {
        vec![
            DeployObservation::Tested(Ok(())),
            DeployObservation::StopRequested(false),
            DeployObservation::Space(Ok((10, 0))),
            DeployObservation::Roots { app_dir: true, patch_dir: false, app_exists: true, patch_exists: false },
        ]
    };
    let mut good = prefix();
    good.push(DeployObservation::FilesVerified(Ok(())));
    let actions = walk(&l, good);
    assert_eq!(actions[3], DeployAction::VerifyExisting);
    assert_eq!(actions[4], DeployAction::Complete { remove_staging: false });

    let mut bad = prefix();
    let failure = PipelineError::Message("deployed Vita CRC mismatch: x".to_owned());
    bad.push(DeployObservation::FilesVerified(Err(failure.clone())));
    let actions = walk(&l, bad);
    assert_eq!(actions[4], DeployAction::Finish(DeployEnd::Failed { error: failure, remove_staging: false }));
}

#[test]
fn partial_deployment_is_never_overwritten() {
    let l = layout(true, 10);
    let start = |roots: DeployObservation| {
        walk(
            &l,
            vec![
                DeployObservation::Tested(Ok(())),
                DeployObservation::StopRequested(false),
                DeployObservation::Space(Ok((100, 0))),
                roots,
            ],
        )
    };
    let app_only = start(DeployObservation::Roots { app_dir: true, patch_dir: false, app_exists: true, patch_exists: false });
    assert_eq!(app_only[3], DeployAction::Finish(DeployEnd::PartialExists { patch: false }));
    let patch_only = start(DeployObservation::Roots { app_dir: false, patch_dir: true, app_exists: false, patch_exists: true });
    assert_eq!(patch_only[3], DeployAction::Finish(DeployEnd::PartialExists { patch: true }));
    assert_eq!(
        deploy_outcome(DeployEnd::PartialExists { patch: true }, &"/ux0".to_owned(), "PCSE00001"),
        Err(PipelineError::Message(
            "incomplete Vita deployment already exists; refusing to overwrite /ux0/patch/PCSE00001".to_owned()
        ))
    );
    assert_eq!(
        deploy_outcome(DeployEnd::PartialExists { patch: false }, &"/ux0".to_owned(), "PCSE00001"),
        Err(PipelineError::Message(
            "incomplete Vita deployment already exists; refusing to overwrite /ux0/app/PCSE00001".to_owned()
        ))
    );
    let no_patch = walk(
        &layout(false, 10),
        vec![
            DeployObservation::Tested(Ok(())),
            DeployObservation::StopRequested(false),
            DeployObservation::Space(Ok((100, 0))),
            DeployObservation::Roots { app_dir: false, patch_dir: true, app_exists: false, patch_exists: true },
        ],
    );
    assert_eq!(no_patch[3], DeployAction::PrepareStaging);
}

#[test]
fn card_space_includes_the_reserve() {
    let l = layout(false, 100);
    let first = vec![DeployObservation::Tested(Ok(())), DeployObservation::StopRequested(false)];
    let mut short = first;
    short.push(DeployObservation::Space(Ok((149, 50))));
    let actions = walk(&l, short);
    assert_eq!(actions[2], DeployAction::Finish(DeployEnd::SpaceShort { required: 150, available: 149 }));
    assert_eq!(
        deploy_outcome(DeployEnd::SpaceShort { required: 150, available: 149 }, &"/ux0".to_owned(), "T"),
        Err(PipelineError::Message(
            "SD2Vita needs 150 bytes including reserve; only 149 bytes are free".to_owned()
        ))
    );
    let exact = walk(
        &l,
        vec![
            DeployObservation::Tested(Ok(())),
            DeployObservation::StopRequested(false),
            DeployObservation::Space(Ok((150, 50))),
        ],
    );
    assert_eq!(exact[2], DeployAction::CheckRoots);
    let overflow = walk(
        &l,
        vec![
            DeployObservation::Tested(Ok(())),
            DeployObservation::StopRequested(false),
            DeployObservation::Space(Ok((u64::MAX, u64::MAX - 99))),
        ],
    );
    assert_eq!(overflow[2], DeployAction::Finish(DeployEnd::SpaceOverflow));
    assert_eq!(
        deploy_outcome(DeployEnd::SpaceOverflow, &"/ux0".to_owned(), "T"),
        Err(PipelineError::Message("Vita space requirement overflowed".to_owned()))
    );
}

#[test]
fn stops_and_failures_end_a_deployment() {
    let l = layout(false, 1);
    let early = walk(&l, vec![DeployObservation::Tested(Ok(())), DeployObservation::StopRequested(true)]);
    assert_eq!(
        early[1],
        DeployAction::Finish(DeployEnd::Failed { error: PipelineError::Interrupted, remove_staging: false })
    );
    let late = walk(
        &l,
        vec![
            DeployObservation::Tested(Ok(())),
            DeployObservation::StopRequested(false),
            DeployObservation::Space(Ok((10, 0))),
            DeployObservation::Roots { app_dir: false, patch_dir: false, app_exists: false, patch_exists: false },
            DeployObservation::StagingPrepared(Ok(())),
            DeployObservation::Extracted(Ok(())),
            DeployObservation::StopRequested(true),
        ],
    );
    assert_eq!(late[6], DeployAction::Finish(DeployEnd::Interrupted));
    assert_eq!(deploy_outcome(DeployEnd::Interrupted, &"/ux0".to_owned(), "T"), Ok(JobOutcome::Interrupted));
    let failure = PipelineError::Message("7z failed".to_owned());
    let extract_failed = walk(
        &l,
        vec![
            DeployObservation::Tested(Ok(())),
            DeployObservation::StopRequested(false),
            DeployObservation::Space(Ok((10, 0))),
            DeployObservation::Roots { app_dir: false, patch_dir: false, app_exists: false, patch_exists: false },
            DeployObservation::StagingPrepared(Ok(())),
            DeployObservation::Extracted(Err(failure.clone())),
        ],
    );
    assert_eq!(
        extract_failed[5],
        DeployAction::Finish(DeployEnd::Failed { error: failure.clone(), remove_staging: true })
    );
    assert_eq!(
        deploy_outcome(DeployEnd::Failed { error: failure.clone(), remove_staging: true }, &"/ux0".to_owned(), "T"),
        Err(failure)
    );
    let out_of_order = walk(&l, vec![DeployObservation::Completed(Ok(()))]);
    assert_eq!(out_of_order[0], DeployAction::Finish(DeployEnd::OutOfOrder));
    assert_eq!(
        deploy_outcome(DeployEnd::OutOfOrder, &"/ux0".to_owned(), "T"),
        Err(PipelineError::Message("Vita deployment step out of order".to_owned()))
    );
    assert_eq!(deploy_outcome(DeployEnd::Completed, &"/ux0".to_owned(), "T"), Ok(JobOutcome::Completed));
}

#[test]
fn recorded_deployment_still_stands() {
    let with_patch = layout(true, 1).entries;
    let without_patch = layout(false, 1).entries;
    assert!(roots_present(&with_patch, true, true));
    assert!(!roots_present(&with_patch, true, false));
    assert!(roots_present(&without_patch, true, false));
    assert!(!roots_present(&without_patch, false, true));
    assert_eq!(installed_after_check(Ok(())), Ok(true));
    assert_eq!(installed_after_check(Err(PipelineError::MissingPath("/ux0/a".to_owned()))), Ok(false));
    assert_eq!(installed_after_check(Err(PipelineError::Interrupted)), Err(PipelineError::Interrupted));
}

#[test]
fn vita_profile_checks() {
    assert_eq!(vita_config(&vita_profile("NoNpDRM-ZIP", Some("/ux0"))), Ok(()));
    assert_eq!(
        vita_config(&vita_profile("zip", Some("/ux0"))),
        Err(PipelineError::InvalidConfig(
            "Vita deployment requires source_format=nonpdrm-zip and output_format=native-vita-tree".to_owned()
        ))
    );
    assert_eq!(vita_device_root(&vita_profile("nonpdrm-zip", Some("/ux0"))), Ok(&"/ux0".to_owned()));
    assert_eq!(
        vita_device_root(&vita_profile("nonpdrm-zip", None)),
        Err(PipelineError::InvalidConfig("Vita library_dir must point to mounted ux0".to_owned()))
    );
}
