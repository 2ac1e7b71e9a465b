use rom_pipeline::config::{ProfileConfig, SystemKind};
use rom_pipeline::error::PipelineError;
use rom_pipeline::state::{
    completion_roots, current_activity, failure_line, failure_log_message, log_line,
    output_matches, parse_marker_text, CompletionRecord, StateStore, StopToken,
};
use rom_pipeline::vita::{
    extraction_args, manifest_path, parse_listing, title_id_from_filename, VitaInventory,
};
use rom_pipeline::wiiu::{partial_path, sidecar_path};

#[test]
fn state_store_paths() {
    let s = StateStore::new("/state/gc".to_owned(), "/logs/gc".to_owned());
    assert_eq!(s.completed_dir(), "/state/gc/completed");
    assert_eq!(s.marker_path("GC-1"), "/state/gc/completed/GC-1.tsv");
    assert_eq!(s.current_path(), "/state/gc/current");
    assert_eq!(s.stop_path(), "/state/gc/stop.requested");
    assert_eq!(s.lock_path(), "/state/gc/pipeline.lock");
    assert_eq!(s.current_failures_path(), "/state/gc/failures.current.tsv");
    assert_eq!(s.failure_history_path(), "/state/gc/failures.history.tsv");
    assert_eq!(s.pipeline_log_path(), "/logs/gc/pipeline.log");
    assert_eq!(s.write_current("idle"), ("/state/gc/current".to_owned(), "idle\n".to_owned()));
    assert_eq!(s.clear_current_failures(), ("/state/gc/failures.current.tsv".to_owned(), String::new()));
}

#[test]
fn completion_marker_is_written_under_completed() {
    let s = StateStore::new("/state".to_owned(), "/logs".to_owned());
    let record = CompletionRecord {
        sha256: "0".repeat(64),
        size: 42,
        modified_seconds: 7,
        output_name: "a.rvz".to_owned(),
        component_fingerprint: None,
    };
    let (path, text) = s.write_completion("J", &record);
    assert_eq!(path, "/state/completed/J.tsv");
    assert_eq!(parse_marker_text(&text).unwrap(), record);
}

#[test]
fn log_and_failure_lines() {
    assert_eq!(log_line(1700000000, "STARTED"), "1700000000 STARTED\n");
    assert_eq!(failure_line(12, "J1", "bad"), "12\tJ1\tbad\n");
    assert_eq!(failure_log_message("J1", "bad"), "FAILED group=J1 reason=bad");
    assert_eq!(current_activity("processing  \n"), "processing");
}

#[test]
fn stop_token_observations() {
    let t = StopToken::new("/state/stop.requested".to_owned());
    assert_eq!(t.stop_path(), "/state/stop.requested");
    assert!(!t.is_requested(false, false));
    assert!(t.is_requested(true, false));
    assert!(t.is_requested(false, true));
}

#[test]
fn recorded_output_must_match() {
    let record = CompletionRecord {
        sha256: "ab".to_owned(),
        size: 10,
        modified_seconds: 20,
        output_name: "x".to_owned(),
        component_fingerprint: None,
    };
    assert!(output_matches(&record, 10, 20, None));
    assert!(output_matches(&record, 10, 20, Some(&"ab".to_owned())));
    assert!(!output_matches(&record, 10, 20, Some(&"cd".to_owned())));
    assert!(!output_matches(&record, 11, 20, None));
    assert!(!output_matches(&record, 10, 21, None));
}

fn profile(output: &str, library: Option<&str>) -> ProfileConfig {
    ProfileConfig {
        id: "p".to_owned(),
        name: "P".to_owned(),
        system: SystemKind::Nintendo3ds,
        source_format: "zip".to_owned(),
        source_dir: "/src".to_owned(),
        done_dir: "/done".to_owned(),
        work_dir: "/work".to_owned(),
        state_dir: "/state".to_owned(),
        log_dir: "/logs".to_owned(),
        output_dir: output.to_owned(),
        library_dir: library.map(|l| l.to_owned()),
        output_format: "cia".to_owned(),
        batch_limit: 1,
        wiiu: None,
        gamecube: None,
        nintendo_3ds: None,
        psp: None,
        ps2: None,
    }
}

#[test]
fn completion_roots_skip_same_library() {
    assert_eq!(completion_roots(&profile("/out", None)), vec!["/out"]);
    assert_eq!(completion_roots(&profile("/out", Some("/lib"))), vec!["/out", "/lib"]);
    assert_eq!(completion_roots(&profile("/out", Some("/out/"))), vec!["/out"]);
}

#[test]
fn sidecar_and_partial_paths_rename_the_file() {
    assert_eq!(sidecar_path("/out/Game.wua").unwrap(), "/out/Game.wua.sha256");
    assert_eq!(partial_path("/out/Game.wua").unwrap(), "/out/.Game.wua.partial");
    assert_eq!(
        sidecar_path("/"),
        Err(PipelineError::Message("output has no filename".to_owned()))
    );
}

#[test]
fn vita_title_ids_in_file_names() {
    assert_eq!(title_id_from_filename("Game [EU] [PCSB00001].zip").as_deref(), Some("PCSB00001"));
    assert_eq!(title_id_from_filename("Game [pcsb00001].zip"), None);
    assert_eq!(title_id_from_filename("Game.zip"), None);
}

#[test]
fn vita_inventory_from_archives() {
    let entries = vec![
        ("Zeta [PCSE00002].zip".to_owned(), 20u64),
        ("Alpha [PCSB00001] (EU).zip".to_owned(), 10u64),
    ];
    let inv = VitaInventory::from_entries(entries.clone(), None).unwrap();
    let ids: Vec<&str> = inv.jobs.iter().map(|j| j.id.as_str()).collect();
    assert_eq!(ids, vec!["VITA-PCSB00001", "VITA-PCSE00002"]);
    assert_eq!(inv.jobs[0].display_name, "Alpha");
    assert_eq!(inv.jobs[0].output_name, "PCSB00001");
    assert_eq!(inv.jobs[0].sources[0].expected_size, 10);

    let only = VitaInventory::from_entries(entries.clone(), Some("vita-pcse00002")).unwrap();
    assert_eq!(only.jobs.len(), 1);
    assert_eq!(only.jobs[0].display_name, "Zeta");

    assert_eq!(
        VitaInventory::from_entries(entries.clone(), Some("VITA-PCSX99999")),
        Err(PipelineError::Message("requested Vita title was not found: VITA-PCSX99999".to_owned()))
    );
    assert_eq!(
        VitaInventory::from_entries(vec![("NoId.zip".to_owned(), 1)], None),
        Err(PipelineError::Message("Vita ZIP has no title ID: NoId.zip".to_owned()))
    );
    let twice = vec![("A [PCSB00001].zip".to_owned(), 1u64), ("B [PCSB00001].zip".to_owned(), 2u64)];
    assert_eq!(
        VitaInventory::from_entries(twice, None),
        Err(PipelineError::Message("duplicate Vita title ID: VITA-PCSB00001".to_owned()))
    );
}

#[test]
fn vita_extraction_and_manifest_paths() {
    let listing = "Path = app/PCSE00001/eboot.bin\nFolder = -\nSize = 3\nCRC = 352441C2\n\n\
Path = app/PCSE00001/sce_sys/param.sfo\nFolder = -\nSize = 2\nCRC = 79DCDD47\n\n\
Path = app/PCSE00001/sce_sys/package/work.bin\nFolder = -\nSize = 1\nCRC = D3D99E8B\n\n\
Path = patch/PCSE00001/eboot.bin\nFolder = -\nSize = 4\nCRC = 00000001\n";
    let layout = parse_listing(listing, "PCSE00001").unwrap();
    assert!(layout.has_patch);
    assert_eq!(
        extraction_args(&layout, "/src/a.zip", "/work/a"),
        vec!["x", "-y", "-o/work/a", "/src/a.zip", "app/PCSE00001/*", "patch/PCSE00001/*"]
    );
    assert_eq!(manifest_path(&"/ux0".to_owned(), "VITA-PCSE00001"), "/ux0/deployments/VITA-PCSE00001.tsv");
}
