use rom_pipeline::status::{prune_phase, pruned_source_names, publication_phase};

#[test]
fn publication_phase_describes_copy_and_game() {
    let (phase, game) = publication_phase(
        "group=GAME1 step=publish-copy output=Example Game.chd",
        3,
        10,
    );
    assert_eq!(phase, "Copying to final library");
    assert_eq!(game.as_deref(), Some("Example Game.chd"));
}

#[test]
fn publication_phase_reports_set_completion() {
    let (phase, game) = publication_phase("publish batch complete completed=10 failed=0", 10, 10);
    assert_eq!(phase, "Publishing complete");
    assert_eq!(game, None);
}

#[test]
fn publication_phase_describes_staging_verification() {
    let (phase, game) = publication_phase(
        "group=GAME2 step=publish-verify-staging output=Next Game.chd",
        4,
        10,
    );
    assert_eq!(phase, "Verifying staged output");
    assert_eq!(game.as_deref(), Some("Next Game.chd"));
}

#[test]
fn publication_phase_describes_skipped_output() {
    let (phase, game) = publication_phase(
        "group=GAME3 step=publish-skip-existing output=Published Game.chd",
        9,
        10,
    );
    assert_eq!(phase, "Skipping published output");
    assert_eq!(game.as_deref(), Some("Published Game.chd"));
}

#[test]
fn prune_events_count_unique_source_files() {
    let log = "1 PRUNED verified PSP source: First.iso\n\
               2 PRUNED verified PSP source: Second.iso\n\
               3 PRUNED verified PSP source: First.iso\n\
               4 PRUNED verified PS2 source: Third.bin\n";
    let names = pruned_source_names(log);
    assert_eq!(names.len(), 3);
    assert!(names.iter().any(|name| name == "First.iso"));
    assert!(names.iter().any(|name| name == "Second.iso"));
    assert!(names.iter().any(|name| name == "Third.bin"));
}

#[test]
fn prune_phase_describes_verification_and_game() {
    let (phase, game) = prune_phase(
        "group=GAME3 step=prune-verify-library output=Safe Game.chd",
        4,
        121,
    );
    assert_eq!(phase, "Verifying before source deletion");
    assert_eq!(game.as_deref(), Some("Safe Game.chd"));
}
