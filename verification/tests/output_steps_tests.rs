use rom_pipeline::chd_output::{chd_step, ChdAction, ChdEnd, ChdLeftover, ChdObservation, ChdStep};
use rom_pipeline::cia_conversion::{cia_step, CiaAction, CiaEnd, CiaObservation, CiaStep};
use rom_pipeline::config::Ps2Settings;
use rom_pipeline::error::PipelineError;

fn cia_walk(observations: Vec<CiaObservation>) -> Vec<CiaAction> {
    let mut step = CiaStep::Testing;
    let mut actions = Vec::new();
    for seen in observations {
        let (next, action) = cia_step(step, seen);
        step = next;
        actions.push(action);
    }
    actions
}

fn cia_until_staged() -> Vec<CiaObservation> {
    vec![
        CiaObservation::Tested(Ok(())),
        CiaObservation::StopRequested(false),
        CiaObservation::Extracted(Ok(())),
        CiaObservation::Normalized(Ok(())),
        CiaObservation::StopRequested(false),
        CiaObservation::Converted(Ok(())),
        CiaObservation::CiaValidated(Ok(())),
        CiaObservation::StopRequested(false),
        CiaObservation::PartialPrepared(Ok(())),
        CiaObservation::Staged(Ok(())),
    ]
}

#[test]
fn cia_is_checked_twice_before_it_is_published() {
    let mut observations = cia_until_staged();
    observations.push(CiaObservation::StagedValidated(Ok(())));
    observations.push(CiaObservation::StopRequested(false));
    observations.push(CiaObservation::Published(Ok(())));
    observations.push(CiaObservation::Completed(Ok(())));
    assert_eq!(
        cia_walk(observations),
        vec![
            CiaAction::CheckStop,
            CiaAction::Extract,
            CiaAction::Normalize,
            CiaAction::CheckStop,
            CiaAction::Convert,
            CiaAction::ValidateCia,
            CiaAction::CheckStop,
            CiaAction::PreparePartial,
            CiaAction::Stage,
            CiaAction::ValidateStaged,
            CiaAction::CheckStop,
            CiaAction::Publish,
            CiaAction::Complete,
            CiaAction::Finish(CiaEnd::Completed),
        ]
    );
}

#[test]
fn cia_failures_and_stops_end_the_conversion() {
    let mismatch = PipelineError::Message(
        "CIA title ID mismatch: expected=0004000000030000 actual=0004000000030100".to_owned(),
    );
    let mut staged_bad = cia_until_staged();
    staged_bad.push(CiaObservation::StagedValidated(Err(mismatch.clone())));
    assert_eq!(
        cia_walk(staged_bad).last(),
        Some(&CiaAction::Finish(CiaEnd::Failed { error: mismatch, remove_partial: false }))
    );

    let mut late_stop = cia_until_staged();
    late_stop.push(CiaObservation::StagedValidated(Ok(())));
    late_stop.push(CiaObservation::StopRequested(true));
    assert_eq!(
        cia_walk(late_stop).last(),
        Some(&CiaAction::Finish(CiaEnd::Failed { error: PipelineError::Interrupted, remove_partial: true }))
    );

    let early_stop = cia_walk(vec![CiaObservation::Tested(Ok(())), CiaObservation::StopRequested(true)]);
    assert_eq!(
        early_stop[1],
        CiaAction::Finish(CiaEnd::Failed { error: PipelineError::Interrupted, remove_partial: false })
    );
    assert_eq!(cia_walk(vec![CiaObservation::Published(Ok(()))])[0], CiaAction::Finish(CiaEnd::OutOfOrder));
}

fn ps2_settings(round_trip: bool) -> Ps2Settings {
    Ps2Settings {
        manifest: "/ps2.tsv".to_owned(),
        chdman: "/chdman".to_owned(),
        minimum_savings_percent: 10,
        preserve_when_compression_is_not_worthwhile: true,
        verify_round_trip: round_trip,
    }
}

fn chd_walk(settings: &Ps2Settings, source_size: u64, observations: Vec<ChdObservation>) -> Vec<ChdAction> {
    let mut step = ChdStep::Creating;
    let mut actions = Vec::new();
    for seen in observations {
        let (next, action) = chd_step(settings, source_size, step, seen);
        step = next;
        actions.push(action);
    }
    actions
}

fn chd_until_measured(chd_size: u64) -> Vec<ChdObservation> {
    vec![
        ChdObservation::Created(Ok(())),
        ChdObservation::StopRequested(false),
        ChdObservation::Verified(Ok(())),
        ChdObservation::RoundTripped(Ok(())),
        ChdObservation::StopRequested(false),
        ChdObservation::Measured(Ok(chd_size)),
    ]
}

#[test]
fn worthwhile_chd_is_published_after_verification() {
    let settings = ps2_settings(true);
    let mut observations = chd_until_measured(50);
    observations.push(ChdObservation::ChdPublished(Ok(())));
    assert_eq!(
        chd_walk(&settings, 100, observations),
        vec![
            ChdAction::CheckStop,
            ChdAction::Verify,
            ChdAction::RoundTrip,
            ChdAction::CheckStop,
            ChdAction::Measure,
            ChdAction::PublishChd,
            ChdAction::Finish(ChdEnd::Compressed { chd_size: 50 }),
        ]
    );
    let without_round_trip = chd_walk(
        &ps2_settings(false),
        100,
        vec![ChdObservation::Created(Ok(())), ChdObservation::StopRequested(false), ChdObservation::Verified(Ok(()))],
    );
    assert_eq!(without_round_trip[2], ChdAction::CheckStop);
}

#[test]
fn source_is_kept_when_the_chd_saves_too_little() {
    let settings = ps2_settings(true);
    let mut observations = chd_until_measured(95);
    observations.push(ChdObservation::ChdDiscarded(Ok(())));
    observations.push(ChdObservation::Copied(Ok(())));
    observations.push(ChdObservation::CopyDigests(Ok(("ab".to_owned(), "ab".to_owned()))));
    observations.push(ChdObservation::CopyPublished(Ok(())));
    let actions = chd_walk(&settings, 100, observations);
    assert_eq!(
        actions[5..].to_vec(),
        vec![
            ChdAction::DiscardChd,
            ChdAction::CopySource,
            ChdAction::HashCopy,
            ChdAction::PublishCopy,
            ChdAction::Finish(ChdEnd::Preserved { chd_size: 95 }),
        ]
    );
    let mut mismatch = chd_until_measured(95);
    mismatch.push(ChdObservation::ChdDiscarded(Ok(())));
    mismatch.push(ChdObservation::Copied(Ok(())));
    mismatch.push(ChdObservation::CopyDigests(Ok(("ab".to_owned(), "cd".to_owned()))));
    assert_eq!(chd_walk(&settings, 100, mismatch).last(), Some(&ChdAction::Finish(ChdEnd::CopyMismatch)));

    let mut keep_off = ps2_settings(true);
    keep_off.preserve_when_compression_is_not_worthwhile = false;
    assert_eq!(chd_walk(&keep_off, 100, chd_until_measured(95))[5], ChdAction::PublishChd);
}

#[test]
fn stop_after_creation_removes_the_partial_chd() {
    let actions = chd_walk(
        &ps2_settings(true),
        100,
        vec![ChdObservation::Created(Ok(())), ChdObservation::StopRequested(true)],
    );
    assert_eq!(
        actions[1],
        ChdAction::Finish(ChdEnd::Failed { error: PipelineError::Interrupted, remove: ChdLeftover::PartialChd })
    );
    let failure = PipelineError::Message("chdman failed".to_owned());
    let failed = chd_walk(&ps2_settings(true), 100, vec![ChdObservation::Created(Err(failure.clone()))]);
    assert_eq!(failed[0], ChdAction::Finish(ChdEnd::Failed { error: failure, remove: ChdLeftover::Nothing }));
}
