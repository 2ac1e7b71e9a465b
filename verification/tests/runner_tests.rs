use rom_pipeline::domain::{BatchPolicy, RunSummary};
use rom_pipeline::error::PipelineError;
use rom_pipeline::service::{
    after_pass, inactive_source_error, launch_arguments, launch_decision, launch_failure_command,
    service_state_text, trim_end_matches, unit_name, waiting_messages, JobReport, Note, Pass,
    PassStep, ProcessReport, RunAction,
};

fn limit(n: usize) -> BatchPolicy {
    BatchPolicy::new(n).unwrap()
}

#[test]
fn pass_stops_at_batch_limit() {
    let mut pass = Pass::new();
    let mut summary = RunSummary::default();
    let l = limit(2);
    let (note, step) = pass.step(&mut summary, 5, l, JobReport::Ready(ProcessReport::Completed), "a", "/logs");
    assert_eq!((note, step), (None, PassStep::Continue));
    assert_eq!(pass.next, 1);
    let (note, step) = pass.step(&mut summary, 5, l, JobReport::Ready(ProcessReport::Completed), "b", "/logs");
    assert_eq!((note, step), (None, PassStep::BatchComplete));
    assert_eq!(summary.completed, 2);
    match after_pass(step, &mut summary, l, true) {
        RunAction::Finish { current, log, outcome } => {
            assert_eq!(current, "batch complete converted=2 limit=2");
            assert_eq!(log, "BATCH COMPLETE converted=2 limit=2");
            assert!(outcome.is_ok());
        }
        other => panic!("unexpected action {other:?}"),
    }
}

#[test]
fn pass_records_failures_and_goes_on() {
    let mut pass = Pass::new();
    let mut summary = RunSummary::default();
    let l = limit(5);
    let (note, step) = pass.step(
        &mut summary,
        3,
        l,
        JobReport::Ready(ProcessReport::Failed("boom".to_string())),
        "job-1",
        "/var/log/rp",
    );
    assert_eq!(step, PassStep::Continue);
    assert_eq!(note, Some(Note::Failure("processing failed: boom; see /var/log/rp/groups/job-1.log".to_string())));
    let (note, step) = pass.step(&mut summary, 3, l, JobReport::ReadinessFailed("gone".to_string()), "job-2", "/l");
    assert_eq!(step, PassStep::Continue);
    assert_eq!(note, Some(Note::Failure("source readiness failed: gone".to_string())));
    let (note, step) = pass.step(
        &mut summary,
        3,
        l,
        JobReport::Complete { reconcile_error: Some("busy".to_string()) },
        "job-3",
        "/l",
    );
    assert_eq!(note, Some(Note::Failure("verified output exists but source move failed: busy".to_string())));
    assert_eq!(step, PassStep::Finished);
    assert_eq!(summary.failed, 3);
    match after_pass(step, &mut summary, l, false) {
        RunAction::Finish { current, log, outcome } => {
            assert_eq!(current, "finished failures=3");
            assert_eq!(log, "FINISHED with failures=3");
            assert_eq!(outcome, Err(PipelineError::Message("pipeline finished with 3 failures".to_string())));
        }
        other => panic!("unexpected action {other:?}"),
    }
}

#[test]
fn pass_stops_on_request_and_interrupt() {
    let mut pass = Pass::new();
    let mut summary = RunSummary::default();
    let l = limit(5);
    let (note, step) = pass.step(&mut summary, 2, l, JobReport::StopRequested, "x", "/l");
    assert_eq!((note, step), (None, PassStep::Stopped));
    let (note, step) = pass.step(&mut summary, 2, l, JobReport::Ready(ProcessReport::Interrupted), "x", "/l");
    assert_eq!(step, PassStep::Stopped);
    assert_eq!(
        note,
        Some(Note::Interrupted {
            current: "stopped cleanly; group=x will retry on resume".to_string(),
            log: "STOPPED cleanly; group=x remains resumable".to_string(),
        })
    );
    match after_pass(step, &mut summary, l, true) {
        RunAction::Finish { current, log, outcome } => {
            assert_eq!(current, "stopped cleanly");
            assert_eq!(log, "STOPPED cleanly before next group");
            assert!(outcome.is_ok());
        }
        other => panic!("unexpected action {other:?}"),
    }
}

#[test]
fn pass_with_waiting_jobs() {
    let mut pass = Pass::new();
    let mut summary = RunSummary::default();
    let l = limit(5);
    let (_, step) = pass.step(&mut summary, 2, l, JobReport::Waiting, "a", "/l");
    assert_eq!(step, PassStep::Continue);
    let (_, step) = pass.step(&mut summary, 2, l, JobReport::Waiting, "b", "/l");
    assert_eq!(step, PassStep::Pending { waiting: 2, made_progress: false });
    assert_eq!(after_pass(step, &mut summary.clone(), l, true), RunAction::WaitForSources(2));
    assert_eq!(
        after_pass(PassStep::Pending { waiting: 2, made_progress: true }, &mut summary.clone(), l, true),
        RunAction::PassAgain
    );
    match after_pass(step, &mut summary, l, false) {
        RunAction::Finish { current, log, outcome } => {
            assert_eq!(current, "waiting groups=2");
            assert_eq!(log, "INCOMPLETE waiting_groups=2 and no-wait was requested");
            assert!(outcome.is_ok());
        }
        other => panic!("unexpected action {other:?}"),
    }
    assert_eq!(summary.waiting, 2);
}

#[test]
fn finished_pass_without_failures() {
    let mut summary = RunSummary::default();
    match after_pass(PassStep::Finished, &mut summary, limit(1), true) {
        RunAction::Finish { current, log, outcome } => {
            assert_eq!(current, "finished failures=0");
            assert_eq!(log, "FINISHED all inventoried groups successfully");
            assert!(outcome.is_ok());
        }
        other => panic!("unexpected action {other:?}"),
    }
}

#[test]
fn waiting_texts() {
    assert_eq!(
        waiting_messages(3, 60),
        ("waiting for source groups=3".to_string(), "WAITING for source downloads groups=3 sleep=60s".to_string())
    );
    assert_eq!(
        inactive_source_error(4),
        PipelineError::Message("source download is inactive but 4 groups remain unavailable".to_string())
    );
}

#[test]
fn service_names_and_states() {
    assert_eq!(unit_name("ps2"), "rom-pipeline-ps2.service");
    assert_eq!(service_state_text("  active\n"), "active");
    assert_eq!(service_state_text("\n"), "inactive");
    assert_eq!(launch_failure_command("run"), "systemd-run ROM Pipeline run worker");
    assert_eq!(trim_end_matches(&['a', 'b', 'b'], &['b']), vec!['a']);
}

#[test]
fn launch_decision_by_state() {
    assert_eq!(launch_decision("inactive", true, "psp", "prune"), Ok(true));
    assert_eq!(launch_decision("active", false, "psp", "run"), Ok(false));
    assert_eq!(
        launch_decision("active", true, "psp", "prune"),
        Err(PipelineError::Message("profile psp is active; stop or wait for it before prune".to_string()))
    );
}

#[test]
fn launch_arguments_for_prune() {
    let args = launch_arguments("/usr/bin/rom-pipeline", "/etc/rp.toml", "psp", limit(7), "prune");
    assert_eq!(
        args,
        vec![
            "--user",
            "--unit=rom-pipeline-psp",
            "--description=ROM Pipeline conversion worker",
            "--property=Nice=10",
            "--property=IOSchedulingClass=best-effort",
            "--property=IOSchedulingPriority=6",
            "/usr/bin/rom-pipeline",
            "prune",
            "--config",
            "/etc/rp.toml",
            "--profile",
            "psp",
            "--limit",
            "7",
            "--confirm-prune",
        ]
    );
    let run = launch_arguments("rp", "c.toml", "gc", limit(5), "run");
    assert_eq!(run.len(), 14);
    assert_eq!(run[7], "run");
}
