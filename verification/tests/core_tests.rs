use rom_pipeline::domain::{BatchPolicy, ComponentKind, Job, SourceArtifact, DEFAULT_BATCH_LIMIT};
use rom_pipeline::state::CompletionRecord;

#[test]
fn batch_default_is_five() {
    assert_eq!(BatchPolicy::default().limit(), DEFAULT_BATCH_LIMIT);
    assert_eq!(DEFAULT_BATCH_LIMIT, 5);
}

#[test]
fn zero_batch_is_rejected() {
    assert!(BatchPolicy::new(0).is_err());
}

#[test]
fn component_fingerprint_changes_with_the_set() {
    let base = SourceArtifact {
        title_id: "0005000012345600".to_owned(),
        expected_size: 100,
        name: "Game [0005000012345600].7z".to_owned(),
        role: ComponentKind::Base,
    };
    let mut job = Job {
        id: "12345600".to_owned(),
        display_name: "Game".to_owned(),
        output_name: "Game.wua".to_owned(),
        sources: vec![base],
    };
    let base_only = job.component_fingerprint();
    job.sources.push(SourceArtifact {
        title_id: "0005000E12345600".to_owned(),
        expected_size: 20,
        name: "Game [0005000E12345600] [UPDATE v16].7z".to_owned(),
        role: ComponentKind::Update,
    });
    assert_ne!(job.component_fingerprint(), base_only);
}

#[test]
fn legacy_completion_marker_round_trips() {
    let line = "abc123\t42\t1000\tGame Name.wua";
    let record = CompletionRecord::parse(line).expect("parse marker");
    assert_eq!(record.sha256, "abc123");
    assert_eq!(record.size, 42);
    assert_eq!(record.modified_seconds, 1000);
    assert_eq!(record.output_name, "Game Name.wua");
    assert_eq!(record.component_fingerprint, None);
    assert_eq!(record.encode(), format!("{line}\n"));
}

#[test]
fn component_fingerprint_round_trips() {
    let line = "abc123\t42\t1000\tGame Name.wua\tset456";
    let record = CompletionRecord::parse(line).expect("parse marker");
    assert_eq!(record.component_fingerprint.as_deref(), Some("set456"));
    assert_eq!(record.encode(), format!("{line}\n"));
}
